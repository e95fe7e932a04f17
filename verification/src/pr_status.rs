//! GitHub pull-request status badge: the state of the PR for a worktree
//! Task's branch, as `gh pr list --json number,state,isDraft,title,url
//! --limit 1` reports it. Every failure (no `gh`, no PR, malformed output)
//! degrades to "no badge" (`None`). Fetches are throttled per Task to one
//! per [`REFRESH_INTERVAL_SECS`] seconds, and the `gh` invocation is
//! injected through [`GhPrLister`].
use vstd::prelude::*;
use std::time::Duration;
use crate::json::{JsonValue, parse_json, spec_parse_json, field, get_field};
use crate::text::{chars_of, eq_str, find_char, contains_char, slice_chars, first_index, has_char, lemma_first_index_found};

verus! {

/// Minimum interval, in seconds, between two `gh pr list` fetches for the
/// same Task.
pub const REFRESH_INTERVAL_SECS: u64 = 120;

/// Badge color of a draft PR (GitHub's neutral gray).
pub const BADGE_DRAFT: u32 = 0x8b949e;
/// Badge color of an open PR (GitHub's green).
pub const BADGE_OPEN: u32 = 0x3fb950;
/// Badge color of a merged PR (GitHub's purple).
pub const BADGE_MERGED: u32 = 0xa371f7;
/// Badge color of a closed PR (GitHub's red).
pub const BADGE_CLOSED: u32 = 0xf85149;

/// A PR's lifecycle state as the badge distinguishes it: GitHub's
/// `state`/`isDraft` fields collapsed into one value.
#[derive(Debug, Clone, Copy, PartialEq, Eq, Structural)]
pub enum PrState {
    Draft,
    Open,
    Merged,
    Closed,
}

/// One fetched PR, reduced to what the badge, tooltip and title pill show.
#[derive(Debug, Clone, PartialEq, Eq)]
pub struct PrInfo {
    pub number: u64,
    pub state: PrState,
    pub title: String,
    pub url: String,
}

/// The plain value of a [`PrInfo`].
pub struct PrInfoView {
    pub number: u64,
    pub state: PrState,
    pub title: Seq<char>,
    pub url: Seq<char>,
}

impl View for PrInfo {
    type V = PrInfoView;

    open spec fn view(&self) -> PrInfoView {
        PrInfoView { number: self.number, state: self.state, title: self.title@, url: self.url@ }
    }
}

/// The view of an optional [`PrInfo`].
pub open spec fn opt_pr_view(o: Option<PrInfo>) -> Option<PrInfoView> {
    match o {
        Some(p) => Some(p@),
        None => None,
    }
}

/// The badge color of each state.
pub open spec fn badge_color_of(state: PrState) -> u32 {
    match state {
        PrState::Draft => BADGE_DRAFT,
        PrState::Open => BADGE_OPEN,
        PrState::Merged => BADGE_MERGED,
        PrState::Closed => BADGE_CLOSED,
    }
}

/// The badge color for `state`.
pub fn badge_color(state: PrState) -> (r: u32)
    ensures
        r == badge_color_of(state),
{
    match state {
        PrState::Draft => BADGE_DRAFT,
        PrState::Open => BADGE_OPEN,
        PrState::Merged => BADGE_MERGED,
        PrState::Closed => BADGE_CLOSED,
    }
}

/// Distinct states get distinct badge colors.
pub proof fn law_badge_colors_distinct(a: PrState, b: PrState)
    ensures
        a != b ==> badge_color_of(a) != badge_color_of(b),
{
}

/// GitHub's `state`/`isDraft` fields as a [`PrState`]; `None` for any
/// `state` other than `OPEN`, `MERGED` and `CLOSED`.
pub open spec fn pr_state_from(state: Seq<char>, is_draft: bool) -> Option<PrState> {
    if state == "OPEN"@ {
        if is_draft {
            Some(PrState::Draft)
        } else {
            Some(PrState::Open)
        }
    } else if state == "MERGED"@ {
        Some(PrState::Merged)
    } else if state == "CLOSED"@ {
        Some(PrState::Closed)
    } else {
        None
    }
}

/// GitHub's `state`/`isDraft` fields as a [`PrState`].
pub fn state_from_fields(state: &str, is_draft: bool) -> (r: Option<PrState>)
    ensures
        r == pr_state_from(state@, is_draft),
{
    let s = chars_of(state);
    if eq_str(&s, "OPEN") {
        if is_draft {
            Some(PrState::Draft)
        } else {
            Some(PrState::Open)
        }
    } else if eq_str(&s, "MERGED") {
        Some(PrState::Merged)
    } else if eq_str(&s, "CLOSED") {
        Some(PrState::Closed)
    } else {
        None
    }
}

/// The text of an optional string member, or the empty string.
pub open spec fn str_or_empty(v: Option<JsonValue>) -> Seq<char> {
    match v {
        Some(JsonValue::Str(s)) => s@,
        _ => Seq::empty(),
    }
}

/// The value of an optional boolean member, or `false`.
pub open spec fn bool_or_false(v: Option<JsonValue>) -> bool {
    match v {
        Some(JsonValue::Bool(b)) => b,
        _ => false,
    }
}

/// The PR a `gh pr list` document describes: the first element of a
/// top-level array, which must be an object with a non-negative integer
/// `number` and a recognized string `state`; `isDraft` defaults to `false`,
/// `title` and `url` to the empty string. `None` for anything else.
pub open spec fn pr_from_doc(doc: JsonValue) -> Option<PrInfoView> {
    match doc {
        JsonValue::Array(items) => if items@.len() == 0 {
            None
        } else {
            match items@[0] {
                JsonValue::Object(m) => match (field(m@, "number"@), field(m@, "state"@)) {
                    (Some(JsonValue::Number(Some(n))), Some(JsonValue::Str(s))) => match pr_state_from(
                        s@,
                        bool_or_false(field(m@, "isDraft"@)),
                    ) {
                        Some(st) => Some(
                            PrInfoView {
                                number: n,
                                state: st,
                                title: str_or_empty(field(m@, "title"@)),
                                url: str_or_empty(field(m@, "url"@)),
                            },
                        ),
                        None => None,
                    },
                    _ => None,
                },
                _ => None,
            }
        },
        _ => None,
    }
}

/// The PR that `gh pr list` output `body` describes, `None` when the body is
/// not JSON or describes none.
pub open spec fn pr_from_body(body: Seq<char>) -> Option<PrInfoView> {
    match spec_parse_json(body) {
        Some(doc) => pr_from_doc(doc),
        None => None,
    }
}

fn string_member_or_empty(m: &Vec<(String, JsonValue)>, key: &str) -> (r: String)
    ensures
        r@ == str_or_empty(field(m@, key@)),
{
    match get_field(m, key) {
        Some(JsonValue::Str(s)) => s.clone(),
        _ => String::new(),
    }
}

/// Reads the PR out of a parsed `gh pr list` document (see
/// [`pr_from_doc`]).
pub fn pr_info_from_json(doc: &JsonValue) -> (r: Option<PrInfo>)
    ensures
        opt_pr_view(r) == pr_from_doc(*doc),
{
    let items = match doc {
        JsonValue::Array(items) => items,
        _ => return None,
    };
    if items.len() == 0 {
        return None;
    }
    let m = match &items[0] {
        JsonValue::Object(m) => m,
        _ => return None,
    };
    let number = match get_field(m, "number") {
        Some(JsonValue::Number(Some(n))) => *n,
        _ => return None,
    };
    let state_text = match get_field(m, "state") {
        Some(JsonValue::Str(s)) => s,
        _ => return None,
    };
    let is_draft = match get_field(m, "isDraft") {
        Some(JsonValue::Bool(b)) => *b,
        _ => false,
    };
    let state = match state_from_fields(state_text.as_str(), is_draft) {
        Some(st) => st,
        None => return None,
    };
    let title = string_member_or_empty(m, "title");
    let url = string_member_or_empty(m, "url");
    Some(PrInfo { number, state, title, url })
}

/// Parses `gh pr list --json number,state,isDraft,title,url --limit 1`'s
/// stdout: `None` for an empty array (no PR for the branch), malformed
/// JSON, a non-array body, or a missing or unparseable required field.
pub fn parse_pr_list(body: &str) -> (r: Option<PrInfo>)
    ensures
        opt_pr_view(r) == pr_from_body(body@),
{
    match parse_json(body) {
        Some(doc) => pr_info_from_json(&doc),
        None => None,
    }
}

/// The total length of a `Duration` in nanoseconds (`Duration::as_nanos`).
pub uninterp spec fn duration_nanos(d: Duration) -> u128;

/// `Duration::as_nanos`; the contract names its result.
#[verifier::external_body]
fn nanos_of(d: &Duration) -> (r: u128)
    ensures
        r == duration_nanos(*d),
{
    d.as_nanos()
}

/// `Duration::from_secs`. The contract claims what std documents of it:
/// the duration is `secs` whole seconds.
#[verifier::external_body]
fn duration_from_secs(secs: u64) -> (r: Duration)
    ensures
        duration_nanos(r) == secs as u128 * 1_000_000_000u128,
{
    Duration::from_secs(secs)
}

/// The fetch throttle: [`REFRESH_INTERVAL_SECS`] seconds.
pub fn refresh_interval() -> (r: Duration)
    ensures
        duration_nanos(r) == REFRESH_INTERVAL_SECS as u128 * 1_000_000_000u128,
{
    duration_from_secs(REFRESH_INTERVAL_SECS)
}

/// Whether another `gh pr list` fetch is due: never fetched (`None`), or at
/// least [`REFRESH_INTERVAL_SECS`] seconds since the last one.
pub fn should_refresh(elapsed_since_last_fetch: Option<Duration>) -> (r: bool)
    ensures
        r == match elapsed_since_last_fetch {
            None => true,
            Some(e) => duration_nanos(e) >= REFRESH_INTERVAL_SECS as u128 * 1_000_000_000u128,
        },
{
    match elapsed_since_last_fetch {
        None => true,
        Some(elapsed) => nanos_of(&elapsed) >= REFRESH_INTERVAL_SECS as u128 * 1_000_000_000u128,
    }
}

/// Whether `s` looks like an `owner/repo` slug: a `/` with a non-empty
/// owner before the first one and a non-empty repo after it that holds no
/// further `/`.
pub open spec fn is_github_slug(s: Seq<char>) -> bool {
    match first_index(s, '/') {
        Some(k) => k > 0 && k + 1 < s.len() && !has_char(s.skip(k + 1), '/'),
        None => false,
    }
}

/// Whether `repo_name` looks like an `owner/repo` GitHub slug.
pub fn looks_like_github_slug(repo_name: &str) -> (r: bool)
    ensures
        r == is_github_slug(repo_name@),
{
    let v = chars_of(repo_name);
    proof {
        lemma_first_index_found(v@, '/');
    }
    match find_char(&v, '/') {
        Some(k) => {
            if k == 0 || k + 1 >= v.len() {
                return false;
            }
            let repo = slice_chars(&v, k + 1, v.len());
            assert(repo@ =~= v@.skip(k + 1));
            !contains_char(&repo, '/')
        },
        None => false,
    }
}

/// Runs `gh pr list` for a branch of a repo and returns its raw stdout, or
/// `None` on any failure (`gh` missing, non-zero exit, timeout).
pub trait GhPrLister {
    fn list_prs(&self, branch: &str, repo: &str) -> Option<String>;
}

/// The PR a lister's answer gives: the parse of its stdout (see
/// [`parse_pr_list`]), none for a failed run.
pub fn pr_from_lister_output(output: Option<String>) -> (r: Option<PrInfo>)
    ensures
        opt_pr_view(r) == match output {
            Some(body) => pr_from_body(body@),
            None => None,
        },
{
    match output {
        Some(body) => parse_pr_list(body.as_str()),
        None => None,
    }
}

/// Fetches `branch`'s PR in `repo` (`owner/repo`) through `lister`: its
/// answer for `branch` of `repo`, read by [`pr_from_lister_output`]. What
/// the lister answers is up to it: any PR returned is the one some
/// `gh pr list` output describes, and a lister that fails gives `None`.
pub fn fetch_pr_info<L: GhPrLister>(lister: &L, branch: &str, repo: &str) -> (r: Option<PrInfo>)
    ensures
        r matches Some(info) ==> exists|body: Seq<char>| #[trigger] pr_from_body(body) == Some(info@),
{
    let output = lister.list_prs(branch, repo);
    let ghost answer = output;
    let r = pr_from_lister_output(output);
    if let Some(info) = &r {
        assert(answer matches Some(body) && pr_from_body(body@) == Some(info@));
    }
    r
}

/// A listed PR with a number and a state of `OPEN`, `MERGED` or `CLOSED`
/// is always shown, with that number and that state (`OPEN` as a draft
/// exactly when `isDraft` is `true`); no other state is shown.
pub proof fn law_every_known_pr_state_is_shown(doc: JsonValue)
    ensures
        match doc {
            JsonValue::Array(items) => items@.len() > 0 ==> match items@[0] {
                JsonValue::Object(m) => match (field(m@, "number"@), field(m@, "state"@)) {
                    (Some(JsonValue::Number(Some(n))), Some(JsonValue::Str(s))) => {
                        &&& s@ == "MERGED"@ ==> (pr_from_doc(doc) matches Some(p) && p.number == n && p.state
                            == PrState::Merged)
                        &&& s@ == "CLOSED"@ ==> (pr_from_doc(doc) matches Some(p) && p.number == n && p.state
                            == PrState::Closed)
                        &&& s@ == "OPEN"@ ==> (pr_from_doc(doc) matches Some(p) && p.number == n && (p.state
                            == PrState::Draft <==> field(m@, "isDraft"@) == Some(JsonValue::Bool(true)))
                            && (p.state == PrState::Draft || p.state == PrState::Open))
                        &&& (s@ != "MERGED"@ && s@ != "CLOSED"@ && s@ != "OPEN"@) ==> pr_from_doc(doc) is None
                    },
                    _ => true,
                },
                _ => true,
            },
            _ => true,
        },
{
    reveal_strlit("OPEN");
    reveal_strlit("MERGED");
    reveal_strlit("CLOSED");
    assert("OPEN"@.len() == 4 && "MERGED"@.len() == 6 && "CLOSED"@.len() == 6);
    assert("MERGED"@[0] != "CLOSED"@[0]);
    assert("MERGED"@ != "CLOSED"@);
    assert("OPEN"@ != "MERGED"@);
    assert("OPEN"@ != "CLOSED"@);
}

} // verus!
