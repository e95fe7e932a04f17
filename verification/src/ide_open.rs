//! "Open in IDE": the candidate editors (by macOS bundle id), which of them
//! the Spotlight detection found installed, and the `open` invocations and
//! their outcome messages. Running `mdfind`/`open` is the caller's job; this
//! module decides what to run and what its output means.
use vstd::prelude::*;
use vstd::string::*;
use crate::text::{join_spaced, join_args, chars_of, string_of, push_str_chars, push_all, is_unicode_whitespace, trim_chars, trimmed, TrimClass, push_decimal, decimal};

verus! {

/// One candidate editor of the menu.
#[derive(Debug, Clone, Copy, PartialEq, Eq)]
pub struct EditorCandidate {
    pub name: &'static str,
    pub bundle_id: &'static str,
}

/// The number of candidate editors.
pub const EDITOR_COUNT: usize = 6;

/// The display name of candidate `i`.
pub open spec fn candidate_name(i: int) -> Seq<char> {
    if i == 0 {
        "Visual Studio Code"@
    } else if i == 1 {
        "Cursor"@
    } else if i == 2 {
        "Zed"@
    } else if i == 3 {
        "Sublime Text"@
    } else if i == 4 {
        "JetBrains Fleet"@
    } else {
        "Xcode"@
    }
}

/// The bundle id of candidate `i`.
pub open spec fn candidate_bundle_id(i: int) -> Seq<char> {
    if i == 0 {
        "com.microsoft.VSCode"@
    } else if i == 1 {
        "com.todesktop.230313mzl4w4u92"@
    } else if i == 2 {
        "dev.zed.Zed"@
    } else if i == 3 {
        "com.sublimetext.4"@
    } else if i == 4 {
        "Fleet"@
    } else {
        "com.apple.dt.Xcode"@
    }
}

/// Whether `c` is candidate `i`.
pub open spec fn is_candidate(c: EditorCandidate, i: int) -> bool {
    c.name@ == candidate_name(i) && c.bundle_id@ == candidate_bundle_id(i)
}

fn candidate(i: usize) -> (r: EditorCandidate)
    requires
        i < EDITOR_COUNT,
    ensures
        is_candidate(r, i as int),
{
    if i == 0 {
        EditorCandidate { name: "Visual Studio Code", bundle_id: "com.microsoft.VSCode" }
    } else if i == 1 {
        EditorCandidate { name: "Cursor", bundle_id: "com.todesktop.230313mzl4w4u92" }
    } else if i == 2 {
        EditorCandidate { name: "Zed", bundle_id: "dev.zed.Zed" }
    } else if i == 3 {
        EditorCandidate { name: "Sublime Text", bundle_id: "com.sublimetext.4" }
    } else if i == 4 {
        EditorCandidate { name: "JetBrains Fleet", bundle_id: "Fleet" }
    } else {
        EditorCandidate { name: "Xcode", bundle_id: "com.apple.dt.Xcode" }
    }
}

/// The candidate editors, in menu order.
pub fn editor_candidates() -> (r: Vec<EditorCandidate>)
    ensures
        r@.len() == EDITOR_COUNT,
        forall|i: int| 0 <= i < EDITOR_COUNT ==> #[trigger] is_candidate(r@[i], i),
{
    let mut r: Vec<EditorCandidate> = Vec::new();
    let mut i: usize = 0;
    while i < EDITOR_COUNT
        invariant
            i <= EDITOR_COUNT,
            r@.len() == i,
            forall|j: int| 0 <= j < i ==> #[trigger] is_candidate(r@[j], j),
        decreases EDITOR_COUNT - i,
    {
        r.push(candidate(i));
        i += 1;
    }
    r
}

/// Whether `mdfind`'s stdout reports the application: it holds at least
/// one non-whitespace character.
pub fn is_installed_output(stdout: &str) -> (r: bool)
    ensures
        r == exists|i: int| 0 <= i < stdout@.len() && !is_unicode_whitespace(#[trigger] stdout@[i]),
{
    let v = chars_of(stdout);
    let n = v.len();
    let mut i: usize = 0;
    while i < n
        invariant
            n == v@.len(),
            v@ == stdout@,
            i <= n,
            forall|j: int| 0 <= j < i ==> is_unicode_whitespace(v@[j]),
        decreases n - i,
    {
        if !crate::text::char_in_class(TrimClass::Unicode, v[i]) {
            assert(!is_unicode_whitespace(stdout@[i as int]));
            return true;
        }
        i += 1;
    }
    false
}

/// The indices of the candidates among the first `n` that `detected`
/// reports installed, in order.
pub open spec fn installed_indices(detected: Seq<bool>, n: int) -> Seq<int>
    decreases n,
{
    if n <= 0 {
        Seq::empty()
    } else if detected[n - 1] {
        installed_indices(detected, n - 1).push(n - 1)
    } else {
        installed_indices(detected, n - 1)
    }
}

/// The number of candidates a detection slice covers: the shorter of the
/// two.
pub open spec fn covered(detected: Seq<bool>) -> int {
    if detected.len() < EDITOR_COUNT {
        detected.len() as int
    } else {
        EDITOR_COUNT as int
    }
}

/// The menu list: the candidates whose detection result (same order) is
/// `true`. A detection slice shorter than the candidate list leaves the
/// rest undetected.
pub fn installed_editors(detected: &[bool]) -> (r: Vec<EditorCandidate>)
    ensures
        r@.len() == installed_indices(detected@, covered(detected@)).len(),
        forall|k: int|
            0 <= k < r@.len() ==> #[trigger] is_candidate(r@[k], installed_indices(detected@, covered(detected@))[k]),
{
    let n = if detected.len() < EDITOR_COUNT { detected.len() } else { EDITOR_COUNT };
    let mut r: Vec<EditorCandidate> = Vec::new();
    let mut i: usize = 0;
    while i < n
        invariant
            n as int == covered(detected@),
            n <= EDITOR_COUNT,
            n <= detected@.len(),
            i <= n,
            r@.len() == installed_indices(detected@, i as int).len(),
            forall|k: int| 0 <= k < r@.len() ==> #[trigger] is_candidate(r@[k], installed_indices(detected@, i as int)[k]),
        decreases n - i,
    {
        if detected[i] {
            r.push(candidate(i));
        }
        i += 1;
    }
    r
}

/// The Spotlight query that finds an application by bundle id.
pub fn mdfind_query(bundle_id: &str) -> (r: String)
    ensures
        r@ == "kMDItemCFBundleIdentifier == '"@ + bundle_id@ + "'"@,
{
    let mut v: Vec<char> = Vec::new();
    push_str_chars(&mut v, "kMDItemCFBundleIdentifier == '");
    push_str_chars(&mut v, bundle_id);
    push_str_chars(&mut v, "'");
    string_of(&v)
}

/// What a finished process reported.
pub struct ProcessOutput {
    pub status: i32,
    pub stdout: String,
    pub stderr: String,
}

/// Whether one `mdfind` run found the application: it ran, exited with
/// status 0, and printed something. A failed run counts as "not found".
pub fn detected_from_mdfind(outcome: &Result<ProcessOutput, String>) -> (r: bool)
    ensures
        r == match outcome {
            Ok(o) => o.status == 0 && exists|i: int| 0 <= i < o.stdout@.len() && !is_unicode_whitespace(#[trigger] o.stdout@[i]),
            Err(_) => false,
        },
{
    match outcome {
        Ok(o) => o.status == 0 && is_installed_output(o.stdout.as_str()),
        Err(_) => false,
    }
}

/// The arguments of `open -b <bundle_id> <directory>`.
pub fn open_in_editor_args(bundle_id: &str, directory: &str) -> (r: Vec<String>)
    ensures
        r@.len() == 3,
        r@[0]@ == "-b"@,
        r@[1]@ == bundle_id@,
        r@[2]@ == directory@,
{
    let mut r: Vec<String> = Vec::new();
    r.push(String::from_str("-b"));
    r.push(String::from_str(bundle_id));
    r.push(String::from_str(directory));
    r
}

/// The arguments of `open -R <directory>` (reveal in Finder).
pub fn reveal_in_finder_args(directory: &str) -> (r: Vec<String>)
    ensures
        r@.len() == 2,
        r@[0]@ == "-R"@,
        r@[1]@ == directory@,
{
    let mut r: Vec<String> = Vec::new();
    r.push(String::from_str("-R"));
    r.push(String::from_str(directory));
    r
}

/// The decimal rendering of a signed integer.
pub open spec fn signed_decimal(n: int) -> Seq<char> {
    if n < 0 {
        seq!['-'] + decimal((-n) as nat)
    } else {
        decimal(n as nat)
    }
}

fn push_signed_decimal(out: &mut Vec<char>, n: i32)
    ensures
        final(out)@ == old(out)@ + signed_decimal(n as int),
{
    if n < 0 {
        out.push('-');
        let m: u64 = (-(n as i64)) as u64;
        push_decimal(out, m);
        assert(final(out)@ =~= old(out)@ + signed_decimal(n as int));
    } else {
        push_decimal(out, n as u64);
    }
}

/// The message of an `open` run that exited with a non-zero status.
pub open spec fn open_failed_message(args: Seq<String>, status: i32, stderr: Seq<char>) -> Seq<char> {
    "open "@ + join_spaced(args) + " failed (exit "@ + signed_decimal(status as int) + "): "@ + trimmed(
        stderr,
        TrimClass::Unicode,
    )
}

/// The outcome of `open <args>`: success for exit status 0; otherwise the
/// command line, status and trimmed stderr; or why it could not be started.
pub fn open_result(args: &Vec<String>, outcome: Result<ProcessOutput, String>) -> (r: Result<(), String>)
    ensures
        match outcome {
            Ok(o) => if o.status == 0 {
                r is Ok
            } else {
                r matches Err(m) && m@ == open_failed_message(args@, o.status, o.stderr@)
            },
            Err(e) => r matches Err(m) && m@ == "failed to launch open: "@ + e@,
        },
{
    match outcome {
        Ok(o) => {
            if o.status == 0 {
                Ok(())
            } else {
                let mut m: Vec<char> = Vec::new();
                push_str_chars(&mut m, "open ");
                let joined = join_args(args.as_slice());
                push_all(&mut m, &joined);
                push_str_chars(&mut m, " failed (exit ");
                push_signed_decimal(&mut m, o.status);
                push_str_chars(&mut m, "): ");
                let err = chars_of(o.stderr.as_str());
                let t = trim_chars(&err, TrimClass::Unicode);
                push_all(&mut m, &t);
                assert(m@ =~= open_failed_message(args@, o.status, o.stderr@));
                Err(string_of(&m))
            }
        },
        Err(e) => {
            let mut m: Vec<char> = Vec::new();
            push_str_chars(&mut m, "failed to launch open: ");
            push_str_chars(&mut m, e.as_str());
            Err(string_of(&m))
        },
    }
}

} // verus!
