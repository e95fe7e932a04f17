//! The slice of the Ghostty configuration that styles this app's terminal:
//! `font-family`, `font-size`, `background`, `foreground`, `cursor-color`,
//! `palette`, `theme`, and `config-file` includes.
//!
//! **Line syntax**: each line is trimmed of spaces, tabs and `\r`; blank
//! lines and lines whose first character is `#` are skipped (there are no
//! trailing comments); the first `=` splits key from value; both are
//! trimmed of spaces and tabs; a value wrapped in double quotes loses one
//! quote layer. A line without `=` has no value.
//!
//! **Keys**: `font-family` appends a family and an empty value resets the
//! list; `font-size` values are collected in order (the last one that is a
//! finite number wins, which the caller decides); the color keys set the
//! scheme (an unreadable color is skipped, keeping the previous value);
//! `theme` keeps its last usable value (only the `light:` side of a
//! `light:NAME,dark:NAME` pair); `config-file` queues an include, resolved
//! against the including file's directory or, for `~/`, the home directory.
//! A leading `?` marks an include optional.
//!
//! **Files**: the default files are, in load order, `ghostty/config` and
//! `ghostty/config.ghostty` under `$XDG_CONFIG_HOME` (or `~/.config`), then,
//! on macOS, the same two names under
//! `~/Library/Application Support/com.mitchellh.ghostty`. Includes are
//! processed after every root file, in queue order, each path at most once.
//!
//! Paths here are strings joined the Unix way (`/`), except
//! [`windows_config_paths`], which joins the Windows way (`\`).
use vstd::prelude::*;
use vstd::string::*;
use crate::text::{
    strings_view, str_is, chars_of, string_of, push_str_chars, trim_range, trimmed, TrimClass, find_char_in, first_index,
    has_char, contains_char, lemma_first_index_found,
};
use crate::ghostty_color::{
    Rgb, ColorScheme, ColorSchemeView, no_colors, color_of, color_readable, parse_color,
    color_value_outcome, palette_entry_of, palette_entry_readable, parse_palette_entry,
    palette_entry_is_readable,
};

verus! {

// ---------------------------------------------------------------------------
// Line syntax.

/// One config line: its key, and its value if the line has an `=`.
#[derive(Debug, PartialEq, Eq)]
pub struct ConfigLine<'a> {
    pub key: &'a str,
    pub value: Option<&'a str>,
}

/// The plain value of a [`ConfigLine`].
pub struct ConfigLineView {
    pub key: Seq<char>,
    pub value: Option<Seq<char>>,
}

impl<'a> View for ConfigLine<'a> {
    type V = ConfigLineView;

    open spec fn view(&self) -> ConfigLineView {
        ConfigLineView {
            key: self.key@,
            value: match self.value {
                Some(v) => Some(v@),
                None => None,
            },
        }
    }
}

/// `v` without one layer of surrounding double quotes, if it has one (a
/// lone `"` is no layer).
pub open spec fn unquoted(v: Seq<char>) -> Seq<char> {
    if v.len() >= 2 && v[0] == '"' && v.last() == '"' {
        v.subrange(1, v.len() - 1)
    } else {
        v
    }
}

/// What one raw line says: nothing for blank and comment lines, else its
/// key and value.
pub open spec fn line_of(raw: Seq<char>) -> Option<ConfigLineView> {
    let line = trimmed(raw, TrimClass::SpaceTabCr);
    if line.len() == 0 || line[0] == '#' {
        None
    } else {
        match first_index(line, '=') {
            None => Some(ConfigLineView { key: line, value: None }),
            Some(k) => Some(
                ConfigLineView {
                    key: trimmed(line.take(k), TrimClass::SpaceTab),
                    value: Some(unquoted(trimmed(line.skip(k + 1), TrimClass::SpaceTab))),
                },
            ),
        }
    }
}

/// Reads one config line; `None` for blank lines and `#` comment lines.
pub fn parse_line(raw: &str) -> (r: Option<ConfigLine<'_>>)
    ensures
        match r {
            Some(l) => line_of(raw@) == Some(l@),
            None => line_of(raw@) is None,
        },
{
    let v = chars_of(raw);
    let n = v.len();
    assert(v@.subrange(0, n as int) =~= v@);
    let (a, b) = trim_range(&v, 0, n, TrimClass::SpaceTabCr);
    let ghost line = v@.subrange(a as int, b as int);
    if a == b || v[a] == '#' {
        return None;
    }
    match find_char_in(&v, a, b, '=') {
        None => Some(ConfigLine { key: raw.substring_char(a, b), value: None }),
        Some(k) => {
            let (ka, kb) = trim_range(&v, a, k, TrimClass::SpaceTab);
            let (va, vb) = trim_range(&v, k + 1, b, TrimClass::SpaceTab);
            proof {
                assert(line.take(k - a) =~= v@.subrange(a as int, k as int));
                assert(line.skip(k - a + 1) =~= v@.subrange(k + 1, b as int));
            }
            let (va, vb) = if vb - va >= 2 && v[va] == '"' && v[vb - 1] == '"' {
                proof {
                    let t = v@.subrange(va as int, vb as int);
                    assert(t.subrange(1, t.len() - 1) =~= v@.subrange(va + 1, vb - 1));
                }
                (va + 1, vb - 1)
            } else {
                (va, vb)
            };
            Some(ConfigLine { key: raw.substring_char(ka, kb), value: Some(raw.substring_char(va, vb)) })
        },
    }
}

// ---------------------------------------------------------------------------
// Includes and paths.

/// A `config-file` include: its path as written and whether a leading `?`
/// made it optional.
#[derive(Debug, PartialEq, Eq)]
pub struct IncludeRef {
    pub path: String,
    pub optional: bool,
}

/// What a `config-file` value includes: a leading `?` makes it optional,
/// then one quote layer comes off; an empty value or path includes nothing.
pub open spec fn include_of(s: Seq<char>) -> Option<(Seq<char>, bool)> {
    if s.len() == 0 {
        None
    } else {
        let optional = s[0] == '?';
        let rest = if optional {
            s.drop_first()
        } else {
            s
        };
        let p = unquoted(rest);
        if p.len() == 0 {
            None
        } else {
            Some((p, optional))
        }
    }
}

/// Reads a `config-file` value.
pub fn parse_include_value(value: &str) -> (r: Option<IncludeRef>)
    ensures
        match r {
            Some(i) => include_of(value@) == Some((i.path@, i.optional)),
            None => include_of(value@) is None,
        },
{
    let v = chars_of(value);
    let n = v.len();
    if n == 0 {
        return None;
    }
    let optional = v[0] == '?';
    let a: usize = if optional {
        1
    } else {
        0
    };
    let ghost rest = v@.subrange(a as int, n as int);
    assert(rest =~= (if optional {
        value@.drop_first()
    } else {
        value@
    }));
    let (a, b) = if n - a >= 2 && v[a] == '"' && v[n - 1] == '"' {
        assert(rest.subrange(1, rest.len() - 1) =~= v@.subrange(a + 1, n - 1));
        (a + 1, n - 1)
    } else {
        (a, n)
    };
    if a == b {
        return None;
    }
    let mut p: Vec<char> = Vec::new();
    let mut i: usize = a;
    while i < b
        invariant
            a <= i <= b,
            b <= v@.len(),
            p@ == v@.subrange(a as int, i as int),
        decreases b - i,
    {
        p.push(v[i]);
        i += 1;
        assert(p@ =~= v@.subrange(a as int, i as int));
    }
    Some(IncludeRef { path: string_of(&p), optional })
}

/// `rest` appended to `base` the Unix way: an absolute `rest` replaces
/// `base`; otherwise a `/` goes between them unless `base` is empty or
/// already ends with one.
pub open spec fn join_path(base: Seq<char>, rest: Seq<char>) -> Seq<char> {
    if rest.len() > 0 && rest[0] == '/' {
        rest
    } else if base.len() == 0 || base.last() == '/' {
        base + rest
    } else {
        base + seq!['/'] + rest
    }
}

/// Appends `rest` to `base` the Unix way (see [`join_path`]).
pub fn join(base: &str, rest: &str) -> (r: String)
    ensures
        r@ == join_path(base@, rest@),
{
    let b = chars_of(base);
    let rc = chars_of(rest);
    let mut out: Vec<char> = Vec::new();
    if rc.len() > 0 && rc[0] == '/' {
        return string_of(&rc);
    }
    push_str_chars(&mut out, base);
    if b.len() > 0 && b[b.len() - 1] != '/' {
        out.push('/');
    }
    push_str_chars(&mut out, rest);
    string_of(&out)
}

/// Where an include path points: `~/x` under `home`, an absolute path as
/// it is, anything else (`~user/x` included) under the including file's
/// directory.
pub open spec fn include_target(path: Seq<char>, base_dir: Seq<char>, home: Seq<char>) -> Seq<char> {
    if path.len() >= 2 && path[0] == '~' && path[1] == '/' {
        join_path(home, path.skip(2))
    } else if path.len() > 0 && path[0] == '/' {
        path
    } else {
        join_path(base_dir, path)
    }
}

/// Resolves an include path against the including file's directory and
/// the home directory (see [`include_target`]).
pub fn resolve_include_path(path: &str, base_dir: &str, home: &str) -> (r: String)
    ensures
        r@ == include_target(path@, base_dir@, home@),
{
    let v = chars_of(path);
    let n = v.len();
    if n >= 2 && v[0] == '~' && v[1] == '/' {
        let rest = path.substring_char(2, n);
        assert(rest@ =~= path@.skip(2));
        join(home, rest)
    } else if n > 0 && v[0] == '/' {
        String::from_str(path)
    } else {
        join(base_dir, path)
    }
}

/// The directory that holds the `ghostty` configuration directory:
/// `$XDG_CONFIG_HOME` when set and non-empty, else `~/.config`.
pub open spec fn xdg_base(home: Seq<char>, xdg_config_home: Option<Seq<char>>) -> Seq<char> {
    match xdg_config_home {
        Some(p) => if p.len() > 0 {
            p
        } else {
            join_path(home, ".config"@)
        },
        None => join_path(home, ".config"@),
    }
}

fn xdg_base_of(home: &str, xdg_config_home: Option<&str>) -> (r: String)
    ensures
        r@ == xdg_base(home@, match xdg_config_home {
            Some(p) => Some(p@),
            None => None,
        }),
{
    match xdg_config_home {
        Some(p) => {
            if p.unicode_len() > 0 {
                String::from_str(p)
            } else {
                join(home, ".config")
            }
        },
        None => join(home, ".config"),
    }
}

/// The default config files in load order (later files win).
pub open spec fn default_paths(home: Seq<char>, xdg_config_home: Option<Seq<char>>, include_app_support: bool) -> Seq<Seq<char>> {
    let base = xdg_base(home, xdg_config_home);
    let xdg = seq![join_path(base, "ghostty/config"@), join_path(base, "ghostty/config.ghostty"@)];
    if include_app_support {
        let dir = join_path(home, "Library/Application Support/com.mitchellh.ghostty"@);
        xdg + seq![join_path(dir, "config"@), join_path(dir, "config.ghostty"@)]
    } else {
        xdg
    }
}

/// The default config file paths in load order (later files win); the
/// Application Support pair only when `include_app_support` (macOS).
pub fn default_config_paths(home: &str, xdg_config_home: Option<&str>, include_app_support: bool) -> (r: Vec<String>)
    ensures
        strings_view(r@) == default_paths(home@, match xdg_config_home {
            Some(p) => Some(p@),
            None => None,
        }, include_app_support),
{
    let base = xdg_base_of(home, xdg_config_home);
    let mut paths: Vec<String> = Vec::new();
    paths.push(join(base.as_str(), "ghostty/config"));
    paths.push(join(base.as_str(), "ghostty/config.ghostty"));
    if include_app_support {
        let dir = join(home, "Library/Application Support/com.mitchellh.ghostty");
        paths.push(join(dir.as_str(), "config"));
        paths.push(join(dir.as_str(), "config.ghostty"));
    }
    assert(strings_view(paths@) =~= default_paths(home@, match xdg_config_home {
        Some(p) => Some(p@),
        None => None,
    }, include_app_support));
    paths
}

/// Whether `s` is a bare drive such as `C:`.
pub open spec fn is_drive(s: Seq<char>) -> bool {
    s.len() == 2 && s[1] == ':' && (('a' <= s[0] <= 'z') || ('A' <= s[0] <= 'Z'))
}

/// The relative path `rel` appended to `base` the Windows way: a `\` goes
/// between them unless `base` is empty, a bare drive, or already ends with
/// a separator.
pub open spec fn join_windows(base: Seq<char>, rel: Seq<char>) -> Seq<char> {
    if base.len() == 0 || base.last() == '\\' || base.last() == '/' || is_drive(base) {
        base + rel
    } else {
        base + seq!['\\'] + rel
    }
}

fn join_win(base: &str, rel: &str) -> (r: String)
    ensures
        r@ == join_windows(base@, rel@),
{
    let b = chars_of(base);
    let n = b.len();
    let mut out: Vec<char> = Vec::new();
    push_str_chars(&mut out, base);
    let drive = n == 2 && b[1] == ':' && (('a' <= b[0] && b[0] <= 'z') || ('A' <= b[0] && b[0] <= 'Z'));
    if !(n == 0 || b[n - 1] == '\\' || b[n - 1] == '/' || drive) {
        out.push('\\');
    }
    push_str_chars(&mut out, rel);
    string_of(&out)
}

/// The Windows config files, in load order: `config` then `config.ghostty`
/// under `%APPDATA%\ghostty`.
pub open spec fn windows_paths(appdata: Seq<char>) -> Seq<Seq<char>> {
    let dir = join_windows(appdata, "ghostty"@);
    seq![join_windows(dir, "config"@), join_windows(dir, "config.ghostty"@)]
}

/// The Windows config file paths under `%APPDATA%`, in load order.
pub fn windows_config_paths(appdata: &str) -> (r: Vec<String>)
    ensures
        strings_view(r@) == windows_paths(appdata@),
{
    let dir = join_win(appdata, "ghostty");
    let mut paths: Vec<String> = Vec::new();
    paths.push(join_win(dir.as_str(), "config"));
    paths.push(join_win(dir.as_str(), "config.ghostty"));
    assert(strings_view(paths@) =~= windows_paths(appdata@));
    paths
}

// ---------------------------------------------------------------------------
// Themes.

/// The theme directories in search order: the user's `ghostty/themes`,
/// then the bundled themes directory, if any.
pub open spec fn theme_dirs(home: Seq<char>, xdg_config_home: Option<Seq<char>>, resources: Option<Seq<char>>) -> Seq<Seq<char>> {
    let user = seq![join_path(xdg_base(home, xdg_config_home), "ghostty/themes"@)];
    match resources {
        Some(r) => user.push(r),
        None => user,
    }
}

/// The theme directories in search order.
pub fn theme_search_dirs(home: &str, xdg_config_home: Option<&str>, resources_themes_dir: Option<&str>) -> (r: Vec<String>)
    ensures
        strings_view(r@) == theme_dirs(home@, match xdg_config_home {
            Some(p) => Some(p@),
            None => None,
        }, match resources_themes_dir {
            Some(p) => Some(p@),
            None => None,
        }),
{
    let base = xdg_base_of(home, xdg_config_home);
    let mut dirs: Vec<String> = Vec::new();
    dirs.push(join(base.as_str(), "ghostty/themes"));
    if let Some(d) = resources_themes_dir {
        dirs.push(String::from_str(d));
    }
    assert(strings_view(dirs@) =~= theme_dirs(home@, match xdg_config_home {
        Some(p) => Some(p@),
        None => None,
    }, match resources_themes_dir {
        Some(p) => Some(p@),
        None => None,
    }));
    dirs
}

/// The files a theme name may stand for, in the order they are tried: an
/// absolute name is itself and nothing else; a name with a path separator
/// stands for nothing; any other name is looked up in each theme directory.
pub open spec fn theme_candidates(name: Seq<char>, dirs: Seq<Seq<char>>) -> Seq<Seq<char>> {
    if name.len() > 0 && name[0] == '/' {
        seq![name]
    } else if has_char(name, '/') || has_char(name, '\\') {
        Seq::empty()
    } else {
        dirs.map_values(|d: Seq<char>| join_path(d, name))
    }
}

/// The files a theme name may stand for, in the order they are tried (the
/// first one that is a regular file is the theme).
pub fn theme_path_candidates(name: &str, home: &str, xdg_config_home: Option<&str>, resources_themes_dir: Option<&str>) -> (r: Vec<String>)
    ensures
        strings_view(r@) == theme_candidates(name@, theme_dirs(home@, match xdg_config_home {
            Some(p) => Some(p@),
            None => None,
        }, match resources_themes_dir {
            Some(p) => Some(p@),
            None => None,
        })),
{
    let v = chars_of(name);
    let mut out: Vec<String> = Vec::new();
    if v.len() > 0 && v[0] == '/' {
        out.push(String::from_str(name));
        assert(strings_view(out@) =~= seq![name@]);
        return out;
    }
    if contains_char(&v, '/') || contains_char(&v, '\\') {
        assert(strings_view(out@) =~= Seq::<Seq<char>>::empty());
        return out;
    }
    let dirs = theme_search_dirs(home, xdg_config_home, resources_themes_dir);
    let ghost ds = strings_view(dirs@);
    let n = dirs.len();
    let mut i: usize = 0;
    while i < n
        invariant
            n == dirs@.len(),
            i <= n,
            ds == strings_view(dirs@),
            out@.len() == i,
            forall|j: int| 0 <= j < i ==> (#[trigger] out@[j])@ == join_path(ds[j], name@),
        decreases n - i,
    {
        let p = join(dirs[i].as_str(), name);
        out.push(p);
        i += 1;
    }
    let ghost rhs = ds.map_values(|d: Seq<char>| join_path(d, name@));
    assert(strings_view(out@) =~= rhs) by {
        assert forall|j: int| 0 <= j < n implies strings_view(out@)[j] == rhs[j] by {
            assert(out@[j]@ == join_path(ds[j], name@));
        }
    }
    out
}

/// The six characters `light:`.
pub open spec fn light_prefix() -> Seq<char> {
    seq!['l', 'i', 'g', 'h', 't', ':']
}

/// The end of the comma-separated part of `t` that starts at `i`.
pub open spec fn part_end(t: Seq<char>, i: int) -> int {
    match first_index(t.skip(i), ',') {
        Some(k) => i + k,
        None => t.len() as int,
    }
}

/// The light theme named by the first part, at or after `i`, of the
/// comma-separated `t` that reads `light:NAME` (spaces and tabs trimmed).
pub open spec fn light_from(t: Seq<char>, i: int) -> Option<Seq<char>>
    decreases t.len() - i,
{
    if i < 0 || i > t.len() {
        None
    } else {
        let j = part_end(t, i);
        let part = trimmed(t.subrange(i, j), TrimClass::SpaceTab);
        if part.len() >= 6 && part.take(6) == light_prefix() && trimmed(part.skip(6), TrimClass::SpaceTab).len() > 0 {
            Some(trimmed(part.skip(6), TrimClass::SpaceTab))
        } else if j >= t.len() || j < i {
            None
        } else {
            light_from(t, j + 1)
        }
    }
}

/// The theme a `theme` value names: a bare name (no `,`, `=` or `:`) as it
/// is, else the light side of a `light:NAME,dark:NAME` pair.
pub open spec fn theme_of(value: Seq<char>) -> Option<Seq<char>> {
    let t = trimmed(value, TrimClass::SpaceTab);
    if t.len() == 0 {
        None
    } else if !has_char(t, ',') && !has_char(t, '=') && !has_char(t, ':') {
        Some(t)
    } else {
        light_from(t, 0)
    }
}

/// Reads a `theme` value into the name of the theme to use (only the light
/// side of a light/dark pair).
pub fn parse_theme_value(value: &str) -> (r: Option<String>)
    ensures
        match r {
            Some(n) => theme_of(value@) == Some(n@),
            None => theme_of(value@) is None,
        },
{
    let v = chars_of(value);
    let n = v.len();
    assert(v@.subrange(0, n as int) =~= v@);
    let (a, b) = trim_range(&v, 0, n, TrimClass::SpaceTab);
    let t = slice_of(&v, a, b);
    let tn = t.len();
    if tn == 0 {
        return None;
    }
    if !contains_char(&t, ',') && !contains_char(&t, '=') && !contains_char(&t, ':') {
        return Some(string_of(&t));
    }
    let mut i: usize = 0;
    while i <= tn
        invariant
            tn == t@.len(),
            t@ == trimmed(value@, TrimClass::SpaceTab),
            tn > 0,
            has_char(t@, ',') || has_char(t@, '=') || has_char(t@, ':'),
            i <= tn + 1,
            light_from(t@, 0) == light_from(t@, i as int),
        decreases tn + 1 - i,
    {
        let j = match find_char_in(&t, i, tn, ',') {
            Some(k) => k,
            None => tn,
        };
        proof {
            assert(t@.skip(i as int) =~= t@.subrange(i as int, tn as int));
            lemma_first_index_found(t@.skip(i as int), ',');
        }
        assert(j as int == part_end(t@, i as int));
        let (pa, pb) = trim_range(&t, i, j, TrimClass::SpaceTab);
        if pb - pa >= 6 && t[pa] == 'l' && t[pa + 1] == 'i' && t[pa + 2] == 'g' && t[pa + 3] == 'h'
            && t[pa + 4] == 't' && t[pa + 5] == ':' {
            let (na, nb) = trim_range(&t, pa + 6, pb, TrimClass::SpaceTab);
            proof {
                let part = t@.subrange(pa as int, pb as int);
                assert(part.take(6) =~= light_prefix());
                assert(part.skip(6) =~= t@.subrange(pa + 6, pb as int));
            }
            if na < nb {
                let name = slice_of(&t, na, nb);
                return Some(string_of(&name));
            }
            assert(trimmed(t@.subrange(pa as int, pb as int).skip(6), TrimClass::SpaceTab).len() == 0);
        } else {
            proof {
                let part = t@.subrange(pa as int, pb as int);
                if part.len() >= 6 && part.take(6) == light_prefix() {
                    assert(part[0] == part.take(6)[0]);
                    assert(part[1] == part.take(6)[1]);
                    assert(part[2] == part.take(6)[2]);
                    assert(part[3] == part.take(6)[3]);
                    assert(part[4] == part.take(6)[4]);
                    assert(part[5] == part.take(6)[5]);
                }
            }
        }
        if j >= tn {
            return None;
        }
        i = j + 1;
    }
    None
}

fn slice_of(v: &Vec<char>, from: usize, to: usize) -> (r: Vec<char>)
    requires
        from <= to <= v@.len(),
    ensures
        r@ == v@.subrange(from as int, to as int),
{
    let mut r: Vec<char> = Vec::new();
    let mut i: usize = from;
    while i < to
        invariant
            from <= i <= to,
            to <= v@.len(),
            r@ == v@.subrange(from as int, i as int),
        decreases to - i,
    {
        r.push(v[i]);
        i += 1;
        assert(r@ =~= v@.subrange(from as int, i as int));
    }
    r
}

// ---------------------------------------------------------------------------
// Applying lines.

/// The view of an optional string slice.
pub open spec fn opt_str(o: Option<&str>) -> Option<Seq<char>> {
    match o {
        Some(s) => Some(s@),
        None => None,
    }
}

/// Whether `key` is one of the color keys.
pub open spec fn is_color_key(key: Seq<char>) -> bool {
    key == "background"@ || key == "foreground"@ || key == "cursor-color"@ || key == "palette"@
}

/// A scalar color after a line sets it: the value's color when it has
/// one, else unchanged.
pub open spec fn scalar_set(slot: Option<Rgb>, value: Option<Seq<char>>) -> Option<Rgb> {
    match value {
        Some(v) => match color_of(v) {
            Some(c) => Some(c),
            None => slot,
        },
        None => slot,
    }
}

/// The colors after one line with `key` and `value`: a scalar color key
/// sets its color, `palette` appends its entry, a value that gives no color
/// or entry changes nothing, and other keys change nothing.
pub open spec fn color_line_applied(c: ColorSchemeView, key: Seq<char>, value: Option<Seq<char>>) -> ColorSchemeView {
    if key == "background"@ {
        ColorSchemeView { background: scalar_set(c.background, value), ..c }
    } else if key == "foreground"@ {
        ColorSchemeView { foreground: scalar_set(c.foreground, value), ..c }
    } else if key == "cursor-color"@ {
        ColorSchemeView { cursor: scalar_set(c.cursor, value), ..c }
    } else if key == "palette"@ {
        match value {
            Some(v) => match palette_entry_of(v) {
                Some(e) => ColorSchemeView { palette: c.palette.push(e), ..c },
                None => c,
            },
            None => c,
        }
    } else {
        c
    }
}

/// Whether a line with `key` and `value` reads colors only where they can
/// be read.
pub open spec fn color_line_readable(key: Seq<char>, value: Option<Seq<char>>) -> bool {
    match value {
        Some(v) => if key == "background"@ || key == "foreground"@ || key == "cursor-color"@ {
            color_readable(v)
        } else if key == "palette"@ {
            palette_entry_readable(v)
        } else {
            true
        },
        None => true,
    }
}

fn set_scalar_color(slot: &mut Option<Rgb>, value: Option<&str>)
    requires
        match value {
            Some(v) => color_readable(v@),
            None => true,
        },
    ensures
        *final(slot) == scalar_set(*old(slot), opt_str(value)),
{
    if let Some(v) = value {
        if let Some(c) = parse_color(v) {
            *slot = Some(c);
        }
    }
}

/// Applies one line to `colors` when its key is a color key.
pub fn apply_color_line(colors: &mut ColorScheme, key: &str, value: Option<&str>)
    requires
        color_line_readable(key@, opt_str(value)),
    ensures
        final(colors)@ == color_line_applied(old(colors)@, key@, opt_str(value)),
{
    if str_is(key, "background") {
        set_scalar_color(&mut colors.background, value);
    } else if str_is(key, "foreground") {
        set_scalar_color(&mut colors.foreground, value);
    } else if str_is(key, "cursor-color") {
        set_scalar_color(&mut colors.cursor, value);
    } else if str_is(key, "palette") {
        if let Some(v) = value {
            if let Some(entry) = parse_palette_entry(v) {
                colors.palette.push(entry);
            }
        }
    }
}

/// What the files loaded so far set: the font families, every `font-size`
/// value in order, the colors, the last theme, and the include queue.
pub struct Loader {
    pub families: Vec<String>,
    pub font_sizes: Vec<String>,
    pub colors: ColorScheme,
    pub theme: Option<String>,
    pub includes: Vec<(String, bool)>,
}

/// The plain value of a [`Loader`].
pub struct LoaderView {
    pub families: Seq<Seq<char>>,
    pub font_sizes: Seq<Seq<char>>,
    pub colors: ColorSchemeView,
    pub theme: Option<Seq<char>>,
    pub includes: Seq<(Seq<char>, bool)>,
}

/// The views of an include queue.
pub open spec fn queue_view(q: Seq<(String, bool)>) -> Seq<(Seq<char>, bool)> {
    q.map_values(|p: (String, bool)| (p.0@, p.1))
}

impl View for Loader {
    type V = LoaderView;

    open spec fn view(&self) -> LoaderView {
        LoaderView {
            families: strings_view(self.families@),
            font_sizes: strings_view(self.font_sizes@),
            colors: self.colors@,
            theme: match self.theme {
                Some(t) => Some(t@),
                None => None,
            },
            includes: queue_view(self.includes@),
        }
    }
}

/// Nothing loaded yet.
pub open spec fn empty_loader() -> LoaderView {
    LoaderView {
        families: Seq::empty(),
        font_sizes: Seq::empty(),
        colors: no_colors(),
        theme: None,
        includes: Seq::empty(),
    }
}

/// The state after one raw line of a file in `base_dir`.
pub open spec fn line_applied(st: LoaderView, raw: Seq<char>, base_dir: Seq<char>, home: Seq<char>) -> LoaderView {
    match line_of(raw) {
        None => st,
        Some(l) => if l.key == "font-family"@ {
            match l.value {
                None => st,
                Some(v) => if v.len() == 0 {
                    LoaderView { families: Seq::empty(), ..st }
                } else {
                    LoaderView { families: st.families.push(v), ..st }
                },
            }
        } else if l.key == "font-size"@ {
            match l.value {
                None => st,
                Some(v) => LoaderView { font_sizes: st.font_sizes.push(v), ..st },
            }
        } else if is_color_key(l.key) {
            LoaderView { colors: color_line_applied(st.colors, l.key, l.value), ..st }
        } else if l.key == "theme"@ {
            match l.value {
                Some(v) => match theme_of(v) {
                    Some(n) => LoaderView { theme: Some(n), ..st },
                    None => st,
                },
                None => st,
            }
        } else if l.key == "config-file"@ {
            match l.value {
                Some(v) => match include_of(v) {
                    Some((p, o)) => LoaderView {
                        includes: st.includes.push((include_target(p, base_dir, home), o)),
                        ..st
                    },
                    None => st,
                },
                None => st,
            }
        } else {
            st
        }
    }
}

/// Whether a raw line reads colors only where they can be read.
pub open spec fn line_readable(raw: Seq<char>) -> bool {
    match line_of(raw) {
        Some(l) => color_line_readable(l.key, l.value),
        None => true,
    }
}

/// The state after the lines of `t` from the line that starts at `start`,
/// scanned from `i` on (lines end at `\n`).
pub open spec fn load_from(st: LoaderView, t: Seq<char>, start: int, i: int, base_dir: Seq<char>, home: Seq<char>) -> LoaderView
    decreases t.len() - i,
{
    if i < 0 {
        st
    } else if i >= t.len() {
        line_applied(st, t.subrange(start, t.len() as int), base_dir, home)
    } else if t[i] == '\n' {
        load_from(line_applied(st, t.subrange(start, i), base_dir, home), t, i + 1, i + 1, base_dir, home)
    } else {
        load_from(st, t, start, i + 1, base_dir, home)
    }
}

/// The state after all lines of the text `t` of a file in `base_dir`.
pub open spec fn loaded(st: LoaderView, t: Seq<char>, base_dir: Seq<char>, home: Seq<char>) -> LoaderView {
    load_from(st, t, 0, 0, base_dir, home)
}

/// Whether the lines of `t` from the line that starts at `start`, scanned
/// from `i` on, read colors only where they can be read.
pub open spec fn readable_from(t: Seq<char>, start: int, i: int) -> bool
    decreases t.len() - i,
{
    if i < 0 {
        true
    } else if i >= t.len() {
        line_readable(t.subrange(start, t.len() as int))
    } else if t[i] == '\n' {
        line_readable(t.subrange(start, i)) && readable_from(t, i + 1, i + 1)
    } else {
        readable_from(t, start, i + 1)
    }
}

/// Whether every line of `t` reads colors only where they can be read.
pub open spec fn text_readable(t: Seq<char>) -> bool {
    readable_from(t, 0, 0)
}

fn is_color_key_str(key: &str) -> (r: bool)
    ensures
        r == is_color_key(key@),
{
    str_is(key, "background") || str_is(key, "foreground") || str_is(key, "cursor-color") || str_is(key, "palette")
}

/// Whether a raw line reads colors only where they can be read.
pub fn line_is_readable(raw: &str) -> (r: bool)
    ensures
        r == line_readable(raw@),
{
    match parse_line(raw) {
        None => true,
        Some(l) => match l.value {
            None => true,
            Some(v) => {
                if str_is(l.key, "background") || str_is(l.key, "foreground") || str_is(l.key, "cursor-color") {
                    color_value_outcome(v).is_some()
                } else if str_is(l.key, "palette") {
                    palette_entry_is_readable(v)
                } else {
                    true
                }
            },
        },
    }
}

/// A file's bytes without a leading UTF-8 byte order mark (`EF BB BF`).
pub open spec fn without_bom(bytes: Seq<u8>) -> Seq<u8> {
    if bytes.len() >= 3 && bytes[0] == 0xef && bytes[1] == 0xbb && bytes[2] == 0xbf {
        bytes.skip(3)
    } else {
        bytes
    }
}

/// Removes a leading UTF-8 byte order mark from a config file's bytes; any
/// other bytes are kept as they are.
pub fn strip_bom(bytes: Vec<u8>) -> (r: Vec<u8>)
    ensures
        r@ == without_bom(bytes@),
{
    let n = bytes.len();
    if n >= 3 && bytes[0] == 0xef && bytes[1] == 0xbb && bytes[2] == 0xbf {
        let mut r: Vec<u8> = Vec::new();
        let mut i: usize = 3;
        while i < n
            invariant
                3 <= i <= n,
                n == bytes@.len(),
                r@ == bytes@.subrange(3, i as int),
            decreases n - i,
        {
            r.push(bytes[i]);
            i += 1;
            assert(r@ =~= bytes@.subrange(3, i as int));
        }
        assert(r@ =~= bytes@.skip(3));
        r
    } else {
        bytes
    }
}

/// Whether every line of a config text reads colors only where they can be
/// read: the condition for loading it.
pub fn config_text_readable(text: &str) -> (r: bool)
    ensures
        r == text_readable(text@),
{
    let v = chars_of(text);
    let n = v.len();
    let mut start: usize = 0;
    let mut i: usize = 0;
    while i < n
        invariant
            n == text@.len(),
            v@ == text@,
            start <= i <= n,
            text_readable(text@) == readable_from(text@, start as int, i as int),
        decreases n - i,
    {
        if v[i] == '\n' {
            let line = text.substring_char(start, i);
            if !line_is_readable(line) {
                return false;
            }
            i += 1;
            start = i;
        } else {
            i += 1;
        }
    }
    let line = text.substring_char(start, n);
    line_is_readable(line)
}

impl Loader {
    /// Nothing loaded yet.
    pub fn new() -> (r: Self)
        ensures
            r@ == empty_loader(),
    {
        let r = Loader {
            families: Vec::new(),
            font_sizes: Vec::new(),
            colors: ColorScheme::default(),
            theme: None,
            includes: Vec::new(),
        };
        assert(r@.families =~= Seq::<Seq<char>>::empty());
        assert(r@.font_sizes =~= Seq::<Seq<char>>::empty());
        assert(r@.includes =~= Seq::<(Seq<char>, bool)>::empty());
        r
    }

    /// Applies one raw line of a file in `base_dir`.
    pub fn apply_line(&mut self, raw: &str, base_dir: &str, home: &str)
        requires
            line_readable(raw@),
        ensures
            final(self)@ == line_applied(old(self)@, raw@, base_dir@, home@),
    {
        let line = match parse_line(raw) {
            Some(l) => l,
            None => {
                return;
            },
        };
        if str_is(line.key, "font-family") {
            if let Some(v) = line.value {
                if v.unicode_len() == 0 {
                    self.families.clear();
                    assert(strings_view(self.families@) =~= Seq::<Seq<char>>::empty());
                } else {
                    self.families.push(String::from_str(v));
                    assert(strings_view(self.families@) =~= strings_view(old(self).families@).push(v@));
                }
            }
        } else if str_is(line.key, "font-size") {
            if let Some(v) = line.value {
                self.font_sizes.push(String::from_str(v));
                assert(strings_view(self.font_sizes@) =~= strings_view(old(self).font_sizes@).push(v@));
            }
        } else if is_color_key_str(line.key) {
            apply_color_line(&mut self.colors, line.key, line.value);
        } else if str_is(line.key, "theme") {
            if let Some(v) = line.value {
                if let Some(name) = parse_theme_value(v) {
                    self.theme = Some(name);
                }
            }
        } else if str_is(line.key, "config-file") {
            if let Some(v) = line.value {
                if let Some(inc) = parse_include_value(v) {
                    let p = resolve_include_path(inc.path.as_str(), base_dir, home);
                    let ghost pv = p@;
                    self.includes.push((p, inc.optional));
                    assert(queue_view(self.includes@) =~= queue_view(old(self).includes@).push((pv, inc.optional)));
                }
            }
        }
    }

    /// Loads the text of one file in `base_dir`, line by line.
    pub fn load_text(&mut self, text: &str, base_dir: &str, home: &str)
        requires
            text_readable(text@),
        ensures
            final(self)@ == loaded(old(self)@, text@, base_dir@, home@),
    {
        let ghost st0 = self@;
        let v = chars_of(text);
        let n = v.len();
        let mut start: usize = 0;
        let mut i: usize = 0;
        while i < n
            invariant
                n == text@.len(),
                v@ == text@,
                start <= i <= n,
                loaded(st0, text@, base_dir@, home@) == load_from(self@, text@, start as int, i as int, base_dir@, home@),
                readable_from(text@, start as int, i as int),
            decreases n - i,
        {
            if v[i] == '\n' {
                let line = text.substring_char(start, i);
                self.apply_line(line, base_dir, home);
                i += 1;
                start = i;
            } else {
                i += 1;
            }
        }
        let line = text.substring_char(start, n);
        self.apply_line(line, base_dir, home);
    }
}

/// The colors a theme file sets: the color keys of its lines, applied in
/// order (any other key, `theme` and `config-file` included, sets nothing).
pub fn theme_colors_from_text(text: &str) -> (r: ColorScheme)
    requires
        text_readable(text@),
    ensures
        r@ == loaded(empty_loader(), text@, Seq::empty(), Seq::empty()).colors,
{
    let mut l = Loader::new();
    let empty = String::new();
    l.load_text(text, empty.as_str(), empty.as_str());
    l.colors
}

// ---------------------------------------------------------------------------
// The include queue.

/// Whether two paths are the same path (`Path`'s equality, which compares
/// them component by component).
pub uninterp spec fn path_eq(a: Seq<char>, b: Seq<char>) -> bool;

/// `Path::eq` on two paths. Claimed: the result is [`path_eq`] of the two
/// strings, and identical strings are the same path; how other strings
/// compare (repeated or trailing separators, `.` components) is left to
/// `Path`.
#[verifier::external_body]
fn same_path(a: &str, b: &str) -> (r: bool)
    ensures
        r == path_eq(a@, b@),
        a@ == b@ ==> r,
{
    std::path::Path::new(a) == std::path::Path::new(b)
}

/// Whether `p` is the same path as one of `visited`.
pub open spec fn seen(visited: Seq<Seq<char>>, p: Seq<char>) -> bool {
    exists|k: int| 0 <= k < visited.len() && path_eq(visited[k], p)
}

/// The position, at or after `i`, of the first queued include whose path
/// has not been visited.
pub open spec fn unseen_from(q: Seq<(Seq<char>, bool)>, i: int, visited: Seq<Seq<char>>) -> Option<int>
    decreases q.len() - i,
{
    if i < 0 || i >= q.len() {
        None
    } else if !seen(visited, q[i].0) {
        Some(i)
    } else {
        unseen_from(q, i + 1, visited)
    }
}

/// The walk over the include queue: the position of the next queued
/// include, and the include paths visited so far (root files are not among
/// them).
pub struct IncludeWalk {
    pub next: usize,
    pub visited: Vec<String>,
}

impl IncludeWalk {
    /// At the head of the queue, nothing visited.
    pub fn new() -> (r: Self)
        ensures
            r.next == 0,
            strings_view(r.visited@) == Seq::<Seq<char>>::empty(),
    {
        let r = IncludeWalk { next: 0, visited: Vec::new() };
        assert(strings_view(r.visited@) =~= Seq::<Seq<char>>::empty());
        r
    }

    fn is_seen(&self, p: &str) -> (r: bool)
        ensures
            r == seen(strings_view(self.visited@), p@),
    {
        let n = self.visited.len();
        let mut k: usize = 0;
        while k < n
            invariant
                n == self.visited@.len(),
                k <= n,
                forall|j: int| 0 <= j < k ==> !path_eq(#[trigger] strings_view(self.visited@)[j], p@),
            decreases n - k,
        {
            if same_path(self.visited[k].as_str(), p) {
                assert(strings_view(self.visited@)[k as int] == self.visited@[k as int]@);
                return true;
            }
            k += 1;
        }
        false
    }

    /// The next queued include to load, skipping those whose path was
    /// already visited; its path becomes visited. `None` once the queue is
    /// exhausted (the queue may grow between calls).
    pub fn next_include(&mut self, queue: &Vec<(String, bool)>) -> (r: Option<(String, bool)>)
        ensures
            match unseen_from(queue_view(queue@), old(self).next as int, strings_view(old(self).visited@)) {
                Some(j) => {
                    &&& r matches Some((p, o))
                    &&& (p@, o) == queue_view(queue@)[j]
                    &&& final(self).next == j + 1
                    &&& strings_view(final(self).visited@) == strings_view(old(self).visited@).push(p@)
                },
                None => {
                    &&& r is None
                    &&& strings_view(final(self).visited@) == strings_view(old(self).visited@)
                },
            },
    {
        let ghost q = queue_view(queue@);
        let ghost vis = strings_view(self.visited@);
        let ghost start = self.next as int;
        let n = queue.len();
        while self.next < n
            invariant
                n == queue@.len(),
                q == queue_view(queue@),
                vis == strings_view(self.visited@),
                start == old(self).next as int,
                vis == strings_view(old(self).visited@),
                unseen_from(q, start, vis) == unseen_from(q, self.next as int, vis),
            decreases n - self.next,
        {
            let i = self.next;
            let p: &str = queue[i].0.as_str();
            assert(q[i as int].0 == p@);
            if !self.is_seen(p) {
                let path = queue[i].0.clone();
                let optional = queue[i].1;
                let ghost pv = path@;
                self.visited.push(path.clone());
                self.next = i + 1;
                assert(strings_view(self.visited@) =~= vis.push(pv));
                return Some((path, optional));
            }
            self.next = i + 1;
        }
        None
    }
}

/// What the include walk hands out was not visited before: a path already
/// visited as an include is never loaded again.
pub proof fn law_include_walk_skips_visited(q: Seq<(Seq<char>, bool)>, i: int, visited: Seq<Seq<char>>)
    ensures
        unseen_from(q, i, visited) matches Some(j) ==> i <= j < q.len() && !seen(visited, q[j].0)
            && forall|k: int| i <= k < j ==> seen(visited, #[trigger] q[k].0),
    decreases q.len() - i,
{
    if 0 <= i < q.len() && seen(visited, q[i].0) {
        law_include_walk_skips_visited(q, i + 1, visited);
    }
}

} // verus!
