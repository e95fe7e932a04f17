//! The UI language setting: its persisted encoding and its resolution to
//! the locale tag in effect. `Auto` (the default) follows the OS locale:
//! `ja` when the OS's most preferred locale starts with `ja` (any case),
//! `en` otherwise.
use vstd::prelude::*;
use vstd::string::*;
use crate::text::{chars_of, eq_str};

verus! {

/// The settings screen's language choice.
#[derive(Debug, Clone, Copy, PartialEq, Eq, Structural)]
pub enum LocaleSetting {
    Auto,
    Ja,
    En,
}

impl Default for LocaleSetting {
    fn default() -> (r: Self)
        ensures
            r == LocaleSetting::Auto,
    {
        LocaleSetting::Auto
    }
}

/// The persisted tag of each setting.
pub open spec fn db_tag(s: LocaleSetting) -> Seq<char> {
    match s {
        LocaleSetting::Auto => "auto"@,
        LocaleSetting::Ja => "ja"@,
        LocaleSetting::En => "en"@,
    }
}

/// The setting a persisted value stands for: `ja` and `en` name
/// themselves, anything else (absent, unknown, corrupt) means `Auto`.
pub open spec fn setting_from_tag(value: Option<Seq<char>>) -> LocaleSetting {
    match value {
        Some(v) => if v == "ja"@ {
            LocaleSetting::Ja
        } else if v == "en"@ {
            LocaleSetting::En
        } else {
            LocaleSetting::Auto
        },
        None => LocaleSetting::Auto,
    }
}

/// ASCII lowercase of one character.
pub open spec fn ascii_lower(c: char) -> char {
    if 'A' <= c <= 'Z' {
        ((c as u32) + 32) as char
    } else {
        c
    }
}

/// The locale tag a detected OS locale means: `ja` when the tag starts
/// with `ja` in any ASCII case, `en` for everything else (including no tag).
pub open spec fn locale_for_os_tag(tag: Option<Seq<char>>) -> Seq<char> {
    match tag {
        Some(t) => if t.len() >= 2 && ascii_lower(t[0]) == 'j' && ascii_lower(t[1]) == 'a' {
            "ja"@
        } else {
            "en"@
        },
        None => "en"@,
    }
}

impl LocaleSetting {
    /// The persisted encoding: `auto`, `ja` or `en`.
    pub fn as_db_str(self) -> (r: &'static str)
        ensures
            r@ == db_tag(self),
    {
        match self {
            LocaleSetting::Auto => "auto",
            LocaleSetting::Ja => "ja",
            LocaleSetting::En => "en",
        }
    }

    /// The setting a persisted value stands for; unknown or absent text
    /// degrades to `Auto`.
    pub fn from_db_str(value: Option<&str>) -> (r: Self)
        ensures
            r == setting_from_tag(
                match value {
                    Some(v) => Some(v@),
                    None => None,
                },
            ),
    {
        match value {
            Some(v) => {
                let c = chars_of(v);
                if eq_str(&c, "ja") {
                    LocaleSetting::Ja
                } else if eq_str(&c, "en") {
                    LocaleSetting::En
                } else {
                    LocaleSetting::Auto
                }
            },
            None => LocaleSetting::Auto,
        }
    }

    /// The locale tag this setting means right now: `Ja` and `En` name
    /// theirs; `Auto` detects the OS locale afresh on every call, and is
    /// `ja` or `en` depending on it (see [`locale_for_os`]).
    pub fn resolve(self) -> (r: &'static str)
        ensures
            self == LocaleSetting::Ja ==> r@ == "ja"@,
            self == LocaleSetting::En ==> r@ == "en"@,
            self == LocaleSetting::Auto ==> (r@ == "ja"@ || r@ == "en"@),
    {
        match self {
            LocaleSetting::Ja => "ja",
            LocaleSetting::En => "en",
            LocaleSetting::Auto => detect_os_locale(),
        }
    }
}

/// Persisting a setting and reading it back gives the same setting.
pub proof fn law_db_tag_round_trip(s: LocaleSetting)
    ensures
        setting_from_tag(Some(db_tag(s))) == s,
{
    reveal_strlit("auto");
    reveal_strlit("ja");
    reveal_strlit("en");
    assert("auto"@.len() == 4);
    assert("ja"@.len() == 2);
    assert("en"@[0] != "ja"@[0]);
    assert("en"@ != "ja"@);
}

/// `sys_locale::get_locale`: the OS's most preferred locale as a BCP 47
/// tag, or `None` when it cannot be obtained. It reads the environment, so
/// nothing is claimed of the result.
#[verifier::external_body]
fn os_locale() -> Option<String> {
    sys_locale::get_locale()
}

/// The locale tag a detected OS locale means (see [`locale_for_os_tag`]).
pub fn locale_for_os(tag: Option<&str>) -> (r: &'static str)
    ensures
        r@ == locale_for_os_tag(
            match tag {
                Some(t) => Some(t@),
                None => None,
            },
        ),
{
    match tag {
        Some(t) => {
            let v = chars_of(t);
            if v.len() >= 2 && lower(v[0]) == 'j' && lower(v[1]) == 'a' {
                "ja"
            } else {
                "en"
            }
        },
        None => "en",
    }
}

fn lower(c: char) -> (r: char)
    ensures
        r == ascii_lower(c),
{
    if 'A' <= c && c <= 'Z' {
        ((c as u8) + 32) as char
    } else {
        c
    }
}

/// The locale tag the OS locale means right now.
fn detect_os_locale() -> (r: &'static str)
    ensures
        r@ == "ja"@ || r@ == "en"@,
{
    let tag = os_locale();
    match tag {
        Some(t) => locale_for_os(Some(t.as_str())),
        None => locale_for_os(None),
    }
}

} // verus!
