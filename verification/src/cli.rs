//! Argument parsing of the `labolabo` control client:
//!
//! ```text
//! labolabo [--socket <path>] tab open [--task <id|current>] [--title <t>] [--json] [-- <command...>]
//! labolabo [--socket <path>] task list [--json]
//! labolabo [--socket <path>] tab list [--task <id|current>] [--all] [--json]
//! labolabo [--socket <path>] focus --task <id> [--json]
//! labolabo [--socket <path>] focus --pane <id> [--json]
//! ```
//!
//! Everything after the first bare `--` is the trailing command of
//! `tab open`; everything before it is scanned for flags and the subcommand
//! words. A flag given twice keeps its last value.
use vstd::prelude::*;
use vstd::string::*;
use vstd::slice::slice_subrange;
use crate::text::{chars_of, str_is, concat_str, concat_chars, join_args, join_spaced, strings_view, push_str_chars, string_of};
use crate::json::{JsonValue, field, get_field};

verus! {

/// The four subcommands.
#[derive(Debug, Clone, Copy, PartialEq, Eq, Structural)]
pub enum Subcommand {
    TabOpen,
    TaskList,
    TabList,
    Focus,
}

/// The flags and trailing command of one invocation.
#[derive(Debug)]
pub struct ParsedArgs {
    pub socket: Option<String>,
    pub json: bool,
    pub task: Option<String>,
    pub title: Option<String>,
    pub all: bool,
    pub pane: Option<String>,
    pub command_argv: Option<Vec<String>>,
}

/// The plain value of a [`ParsedArgs`].
pub struct ParsedArgsView {
    pub socket: Option<Seq<char>>,
    pub json: bool,
    pub task: Option<Seq<char>>,
    pub title: Option<Seq<char>>,
    pub all: bool,
    pub pane: Option<Seq<char>>,
    pub command_argv: Option<Seq<String>>,
}

/// The view of an optional string.
pub open spec fn opt_view(o: Option<String>) -> Option<Seq<char>> {
    match o {
        Some(s) => Some(s@),
        None => None,
    }
}

impl View for ParsedArgs {
    type V = ParsedArgsView;

    open spec fn view(&self) -> ParsedArgsView {
        ParsedArgsView {
            socket: opt_view(self.socket),
            json: self.json,
            task: opt_view(self.task),
            title: opt_view(self.title),
            all: self.all,
            pane: opt_view(self.pane),
            command_argv: match self.command_argv {
                Some(v) => Some(v@),
                None => None,
            },
        }
    }
}

/// No flag given and no trailing command.
pub open spec fn no_flags() -> ParsedArgsView {
    ParsedArgsView {
        socket: None,
        json: false,
        task: None,
        title: None,
        all: false,
        pane: None,
        command_argv: None,
    }
}

impl Default for ParsedArgs {
    fn default() -> (r: Self)
        ensures
            r@ == no_flags(),
    {
        ParsedArgs {
            socket: None,
            json: false,
            task: None,
            title: None,
            all: false,
            pane: None,
            command_argv: None,
        }
    }
}

// ---------------------------------------------------------------------------
// The trailing command separator.

/// The position of the first bare `--` at or after `i`.
pub open spec fn dash_from(args: Seq<String>, i: int) -> Option<int>
    decreases args.len() - i,
{
    if i < 0 || i >= args.len() {
        None
    } else if args[i]@ == "--"@ {
        Some(i)
    } else {
        dash_from(args, i + 1)
    }
}

/// The words before the first bare `--` (all of them when there is none).
pub open spec fn split_head(args: Seq<String>) -> Seq<String> {
    match dash_from(args, 0) {
        Some(k) => args.subrange(0, k),
        None => args,
    }
}

/// The words after the first bare `--`, if there is one.
pub open spec fn split_tail(args: Seq<String>) -> Option<Seq<String>> {
    match dash_from(args, 0) {
        Some(k) => Some(args.subrange(k + 1, args.len() as int)),
        None => None,
    }
}

proof fn lemma_dash_from(args: Seq<String>, i: int)
    requires
        0 <= i <= args.len(),
    ensures
        match dash_from(args, i) {
            Some(k) => i <= k < args.len() && args[k]@ == "--"@ && forall|j: int|
                i <= j < k ==> args[j]@ != "--"@,
            None => forall|j: int| i <= j < args.len() ==> args[j]@ != "--"@,
        },
    decreases args.len() - i,
{
    if i < args.len() && args[i]@ != "--"@ {
        lemma_dash_from(args, i + 1);
    }
}

/// Splits `args` at the first bare `--`: the words before it, and the
/// trailing command after it (`None` when there is no `--`).
pub fn split_trailing_command(args: &[String]) -> (r: (&[String], Option<&[String]>))
    ensures
        r.0@ == split_head(args@),
        match r.1 {
            Some(t) => split_tail(args@) == Some(t@),
            None => split_tail(args@) is None,
        },
{
    let n = args.len();
    let mut i: usize = 0;
    while i < n
        invariant
            n == args@.len(),
            i <= n,
            dash_from(args@, 0) == dash_from(args@, i as int),
        decreases n - i,
    {
        if str_is(args[i].as_str(), "--") {
            let head = slice_subrange(args, 0, i);
            let tail = slice_subrange(args, i + 1, n);
            return (head, Some(tail));
        }
        i += 1;
    }
    (args, None)
}

/// The first bare `--` splits the arguments: the words before it hold no
/// `--`, and the words before it, the separator and the trailing command
/// make up the arguments again.
pub proof fn law_split_at_first_separator(args: Seq<String>)
    ensures
        forall|j: int| 0 <= j < split_head(args).len() ==> split_head(args)[j]@ != "--"@,
        match split_tail(args) {
            Some(t) => {
                let k = split_head(args).len() as int;
                &&& k < args.len()
                &&& args[k]@ == "--"@
                &&& args =~= split_head(args).push(args[k]) + t
            },
            None => split_head(args) == args,
        },
{
    lemma_dash_from(args, 0);
}

// ---------------------------------------------------------------------------
// Scanning the words before the separator.

/// Whether `a` has the shape of a long flag (`--` followed by anything).
pub open spec fn is_long_flag(a: Seq<char>) -> bool {
    a.len() >= 2 && a[0] == '-' && a[1] == '-'
}

/// The error of a value flag given as the last word.
pub open spec fn missing_value(flag: Seq<char>) -> Seq<char> {
    flag + " requires a value"@
}

/// Scans `head` from position `i` on, with the flags `v` and positional
/// words `pos` seen so far: the flags and positional words of the whole
/// scan, or the error that stops it.
pub open spec fn scan_from(head: Seq<String>, i: int, v: ParsedArgsView, pos: Seq<String>) -> Result<
    (ParsedArgsView, Seq<String>),
    Seq<char>,
>
    decreases head.len() - i,
{
    if i < 0 || i >= head.len() {
        Ok((v, pos))
    } else {
        let a = head[i]@;
        if a == "--socket"@ {
            if i + 1 < head.len() {
                scan_from(head, i + 2, ParsedArgsView { socket: Some(head[i + 1]@), ..v }, pos)
            } else {
                Err(missing_value(a))
            }
        } else if a == "--json"@ {
            scan_from(head, i + 1, ParsedArgsView { json: true, ..v }, pos)
        } else if a == "--task"@ {
            if i + 1 < head.len() {
                scan_from(head, i + 2, ParsedArgsView { task: Some(head[i + 1]@), ..v }, pos)
            } else {
                Err(missing_value(a))
            }
        } else if a == "--title"@ {
            if i + 1 < head.len() {
                scan_from(head, i + 2, ParsedArgsView { title: Some(head[i + 1]@), ..v }, pos)
            } else {
                Err(missing_value(a))
            }
        } else if a == "--all"@ {
            scan_from(head, i + 1, ParsedArgsView { all: true, ..v }, pos)
        } else if a == "--pane"@ {
            if i + 1 < head.len() {
                scan_from(head, i + 2, ParsedArgsView { pane: Some(head[i + 1]@), ..v }, pos)
            } else {
                Err(missing_value(a))
            }
        } else if is_long_flag(a) {
            Err("unknown flag: "@ + a)
        } else {
            scan_from(head, i + 1, v, pos.push(head[i]))
        }
    }
}

/// The subcommand that the positional words name.
pub open spec fn subcommand_of(pos: Seq<String>) -> Result<Subcommand, Seq<char>> {
    if pos.len() == 2 && pos[0]@ == "tab"@ && pos[1]@ == "open"@ {
        Ok(Subcommand::TabOpen)
    } else if pos.len() == 2 && pos[0]@ == "task"@ && pos[1]@ == "list"@ {
        Ok(Subcommand::TaskList)
    } else if pos.len() == 2 && pos[0]@ == "tab"@ && pos[1]@ == "list"@ {
        Ok(Subcommand::TabList)
    } else if pos.len() == 1 && pos[0]@ == "focus"@ {
        Ok(Subcommand::Focus)
    } else if pos.len() == 0 {
        Err("missing subcommand"@)
    } else {
        Err("unknown subcommand: "@ + join_spaced(pos))
    }
}

/// The error of a flag that `cmd` does not take, or of a `focus` without
/// exactly one target.
pub open spec fn flags_error(cmd: Subcommand, v: ParsedArgsView) -> Option<Seq<char>> {
    match cmd {
        Subcommand::TabOpen => if v.all || v.pane is Some {
            Some("--all/--pane are not valid for `tab open`"@)
        } else {
            None
        },
        Subcommand::TaskList => if v.task is Some || v.title is Some || v.all || v.pane is Some {
            Some("`task list` takes no --task/--title/--all/--pane flags"@)
        } else {
            None
        },
        Subcommand::TabList => if v.title is Some || v.pane is Some {
            Some("--title/--pane are not valid for `tab list`"@)
        } else {
            None
        },
        Subcommand::Focus => if v.title is Some || v.all || v.command_argv is Some {
            Some("--title/--all/-- <command...> are not valid for `focus`"@)
        } else if v.task is Some && v.pane is Some {
            Some("focus: specify exactly one of --task/--pane, not both"@)
        } else if v.task is None && v.pane is None {
            Some("focus: --task or --pane is required"@)
        } else {
            None
        },
    }
}

/// What an argument list means: its subcommand and flags, or the error
/// that rejects it.
pub open spec fn parse_args_spec(args: Seq<String>) -> Result<(Subcommand, ParsedArgsView), Seq<char>> {
    let tail = split_tail(args);
    match scan_from(split_head(args), 0, no_flags(), Seq::empty()) {
        Err(e) => Err(e),
        Ok((v, pos)) => match subcommand_of(pos) {
            Err(e) => Err(e),
            Ok(cmd) => if tail is Some && cmd != Subcommand::TabOpen {
                Err("-- <command...> is only valid for `tab open`"@)
            } else {
                let full = ParsedArgsView { command_argv: tail, ..v };
                match flags_error(cmd, full) {
                    Some(e) => Err(e),
                    None => Ok((cmd, full)),
                }
            },
        },
    }
}

/// The plain value of a parse result.
pub open spec fn parse_result_view(r: Result<(Subcommand, ParsedArgs), String>) -> Result<
    (Subcommand, ParsedArgsView),
    Seq<char>,
> {
    match r {
        Ok((s, p)) => Ok((s, p@)),
        Err(e) => Err(e@),
    }
}

/// The flags seen so far, with no trailing command.
spec fn flags_view(
    socket: Option<String>,
    json: bool,
    task: Option<String>,
    title: Option<String>,
    all: bool,
    pane: Option<String>,
) -> ParsedArgsView {
    ParsedArgsView {
        socket: opt_view(socket),
        json,
        task: opt_view(task),
        title: opt_view(title),
        all,
        pane: opt_view(pane),
        command_argv: None,
    }
}

fn copy_strings(t: &[String]) -> (r: Vec<String>)
    ensures
        r@ == t@,
{
    let mut r: Vec<String> = Vec::new();
    let n = t.len();
    let mut i: usize = 0;
    while i < n
        invariant
            n == t@.len(),
            i <= n,
            r@ == t@.subrange(0, i as int),
        decreases n - i,
    {
        r.push(t[i].clone());
        i += 1;
        assert(r@ =~= t@.subrange(0, i as int));
    }
    assert(t@.subrange(0, n as int) =~= t@);
    r
}

/// Parses the arguments (program name excluded) into the subcommand and its
/// flags, or the message that rejects them.
pub fn parse_args(args: &[String]) -> (r: Result<(Subcommand, ParsedArgs), String>)
    ensures
        parse_result_view(r) == parse_args_spec(args@),
{
    let (head, tail) = split_trailing_command(args);
    let ghost h = head@;
    let n = head.len();
    let mut positionals: Vec<String> = Vec::new();
    let mut socket: Option<String> = None;
    let mut json = false;
    let mut task: Option<String> = None;
    let mut title: Option<String> = None;
    let mut all = false;
    let mut pane: Option<String> = None;
    let mut i: usize = 0;
    assert(flags_view(socket, json, task, title, all, pane) == no_flags());
    assert(positionals@ =~= Seq::<String>::empty());
    while i < n
        invariant
            n == h.len(),
            h == head@,
            h == split_head(args@),
            i <= n,
            scan_from(h, 0, no_flags(), Seq::empty()) == scan_from(
                h,
                i as int,
                flags_view(socket, json, task, title, all, pane),
                positionals@,
            ),
        decreases n - i,
    {
        let tok: &str = head[i].as_str();
        if str_is(tok, "--socket") {
            if i + 1 < n {
                socket = Some(head[i + 1].clone());
                i = i + 2;
            } else {
                return Err(concat_str(tok, " requires a value"));
            }
        } else if str_is(tok, "--json") {
            json = true;
            i = i + 1;
        } else if str_is(tok, "--task") {
            if i + 1 < n {
                task = Some(head[i + 1].clone());
                i = i + 2;
            } else {
                return Err(concat_str(tok, " requires a value"));
            }
        } else if str_is(tok, "--title") {
            if i + 1 < n {
                title = Some(head[i + 1].clone());
                i = i + 2;
            } else {
                return Err(concat_str(tok, " requires a value"));
            }
        } else if str_is(tok, "--all") {
            all = true;
            i = i + 1;
        } else if str_is(tok, "--pane") {
            if i + 1 < n {
                pane = Some(head[i + 1].clone());
                i = i + 2;
            } else {
                return Err(concat_str(tok, " requires a value"));
            }
        } else {
            let c = chars_of(tok);
            if c.len() >= 2 && c[0] == '-' && c[1] == '-' {
                return Err(concat_str("unknown flag: ", tok));
            }
            positionals.push(head[i].clone());
            i = i + 1;
        }
    }
    let ghost v = flags_view(socket, json, task, title, all, pane);
    assert(scan_from(h, 0, no_flags(), Seq::empty()) == Ok::<(ParsedArgsView, Seq<String>), Seq<char>>((v, positionals@)));

    let np = positionals.len();
    let cmd = if np == 2 && str_is(positionals[0].as_str(), "tab") && str_is(positionals[1].as_str(), "open") {
        Subcommand::TabOpen
    } else if np == 2 && str_is(positionals[0].as_str(), "task") && str_is(positionals[1].as_str(), "list") {
        Subcommand::TaskList
    } else if np == 2 && str_is(positionals[0].as_str(), "tab") && str_is(positionals[1].as_str(), "list") {
        Subcommand::TabList
    } else if np == 1 && str_is(positionals[0].as_str(), "focus") {
        Subcommand::Focus
    } else if np == 0 {
        return Err(String::from_str("missing subcommand"));
    } else {
        let joined = join_args(positionals.as_slice());
        return Err(concat_chars("unknown subcommand: ", &joined));
    };

    let command_argv: Option<Vec<String>> = match tail {
        Some(t) => {
            if cmd != Subcommand::TabOpen {
                return Err(String::from_str("-- <command...> is only valid for `tab open`"));
            }
            Some(copy_strings(t))
        },
        None => None,
    };

    match cmd {
        Subcommand::TabOpen => {
            if all || pane.is_some() {
                return Err(String::from_str("--all/--pane are not valid for `tab open`"));
            }
        },
        Subcommand::TaskList => {
            if task.is_some() || title.is_some() || all || pane.is_some() {
                return Err(String::from_str("`task list` takes no --task/--title/--all/--pane flags"));
            }
        },
        Subcommand::TabList => {
            if title.is_some() || pane.is_some() {
                return Err(String::from_str("--title/--pane are not valid for `tab list`"));
            }
        },
        Subcommand::Focus => {
            if title.is_some() || all || command_argv.is_some() {
                return Err(String::from_str("--title/--all/-- <command...> are not valid for `focus`"));
            }
            if task.is_some() && pane.is_some() {
                return Err(String::from_str("focus: specify exactly one of --task/--pane, not both"));
            }
            if task.is_none() && pane.is_none() {
                return Err(String::from_str("focus: --task or --pane is required"));
            }
        },
    }

    Ok((cmd, ParsedArgs { socket, json, task, title, all, pane, command_argv }))
}

/// Only `tab open` carries a trailing command.
pub proof fn law_trailing_command_only_for_tab_open(args: Seq<String>)
    ensures
        match parse_args_spec(args) {
            Ok((cmd, v)) => v.command_argv is Some ==> cmd == Subcommand::TabOpen,
            Err(_) => true,
        },
{
}

/// The trailing command is the words after the first bare `--`, verbatim.
pub proof fn law_trailing_command_verbatim(args: Seq<String>)
    ensures
        match parse_args_spec(args) {
            Ok((cmd, v)) => v.command_argv == split_tail(args),
            Err(_) => true,
        },
{
}

/// An accepted `focus` names exactly one target: a Task or a pane.
pub proof fn law_focus_has_exactly_one_target(args: Seq<String>)
    ensures
        match parse_args_spec(args) {
            Ok((cmd, v)) => cmd == Subcommand::Focus ==> (v.task is Some <==> v.pane is None),
            Err(_) => true,
        },
{
}

// ---------------------------------------------------------------------------
// Human-readable output of a successful reply.

/// The text of the string member `key` of an object.
pub open spec fn member_str(v: JsonValue, key: Seq<char>) -> Option<Seq<char>> {
    match v {
        JsonValue::Object(m) => match field(m@, key) {
            Some(JsonValue::Str(s)) => Some(s@),
            _ => None,
        },
        _ => None,
    }
}

/// The boolean member `key` of an object.
pub open spec fn member_bool(v: JsonValue, key: Seq<char>) -> Option<bool> {
    match v {
        JsonValue::Object(m) => match field(m@, key) {
            Some(JsonValue::Bool(b)) => Some(b),
            _ => None,
        },
        _ => None,
    }
}

/// The elements of the array member `key` of an object.
pub open spec fn member_array(v: JsonValue, key: Seq<char>) -> Option<Seq<JsonValue>> {
    match v {
        JsonValue::Object(m) => match field(m@, key) {
            Some(JsonValue::Array(a)) => Some(a@),
            _ => None,
        },
        _ => None,
    }
}

/// `o`'s text, or `dflt`.
pub open spec fn or_text(o: Option<Seq<char>>, dflt: Seq<char>) -> Seq<char> {
    match o {
        Some(s) => s,
        None => dflt,
    }
}

/// The line of one Task of `task list`: `id  [kind]  title  (repo)`.
pub open spec fn task_line(t: JsonValue) -> Seq<char> {
    or_text(member_str(t, "id"@), "?"@) + "  ["@ + or_text(member_str(t, "kind"@), "?"@) + "]  "@
        + or_text(member_str(t, "title"@), "?"@) + "  ("@ + or_text(member_str(t, "repo_name"@), "?"@)
        + ")"@
}

/// The line of one tab of `tab list`: `* task  pane  [kind]  title`, the
/// `*` marking the focused tab (a space otherwise).
pub open spec fn tab_line(t: JsonValue) -> Seq<char> {
    (if member_bool(t, "focused"@) == Some(true) {
        "*"@
    } else {
        " "@
    }) + " "@ + or_text(member_str(t, "task_id"@), "?"@) + "  "@ + or_text(member_str(t, "pane_id"@), "-"@)
        + "  ["@ + or_text(member_str(t, "kind"@), "?"@) + "]  "@ + or_text(member_str(t, "title"@), "?"@)
}

/// The lines of a list: one per element, or `empty` alone when there is no
/// list or it is empty.
pub open spec fn list_lines(items: Option<Seq<JsonValue>>, empty: Seq<char>, line: spec_fn(JsonValue) -> Seq<char>) -> Seq<Seq<char>> {
    match items {
        None => seq![empty],
        Some(a) => if a.len() == 0 {
            seq![empty]
        } else {
            a.map_values(line)
        },
    }
}

/// The lines printed for a successful reply to `cmd` carrying `result`.
pub open spec fn success_lines(cmd: Subcommand, result: Option<JsonValue>) -> Seq<Seq<char>> {
    match result {
        None => seq!["ok"@],
        Some(r) => match cmd {
            Subcommand::TabOpen => seq![
                "opened pane "@ + or_text(member_str(r, "pane_id"@), "?"@) + " in task "@ + or_text(
                    member_str(r, "task_id"@),
                    "?"@,
                ),
            ],
            Subcommand::TaskList => list_lines(member_array(r, "tasks"@), "(no tasks)"@, |t: JsonValue| task_line(t)),
            Subcommand::TabList => list_lines(member_array(r, "tabs"@), "(no tabs)"@, |t: JsonValue| tab_line(t)),
            Subcommand::Focus => match member_str(r, "pane_id"@) {
                Some(p) => seq![
                    "focused pane "@ + p + " in task "@ + or_text(member_str(r, "task_id"@), "?"@),
                ],
                None => seq!["focused task "@ + or_text(member_str(r, "task_id"@), "?"@)],
            },
        },
    }
}

fn str_member<'a>(v: &'a JsonValue, key: &str) -> (r: Option<&'a str>)
    ensures
        match r {
            Some(s) => member_str(*v, key@) == Some(s@),
            None => member_str(*v, key@) is None,
        },
{
    match v {
        JsonValue::Object(m) => match get_field(m, key) {
            Some(JsonValue::Str(s)) => Some(s.as_str()),
            _ => None,
        },
        _ => None,
    }
}

fn bool_member(v: &JsonValue, key: &str) -> (r: Option<bool>)
    ensures
        r == member_bool(*v, key@),
{
    match v {
        JsonValue::Object(m) => match get_field(m, key) {
            Some(JsonValue::Bool(b)) => Some(*b),
            _ => None,
        },
        _ => None,
    }
}

fn array_member<'a>(v: &'a JsonValue, key: &str) -> (r: Option<&'a Vec<JsonValue>>)
    ensures
        match r {
            Some(a) => member_array(*v, key@) == Some(a@),
            None => member_array(*v, key@) is None,
        },
{
    match v {
        JsonValue::Object(m) => match get_field(m, key) {
            Some(JsonValue::Array(a)) => Some(a),
            _ => None,
        },
        _ => None,
    }
}

fn push_or(out: &mut Vec<char>, o: Option<&str>, dflt: &str)
    ensures
        final(out)@ == old(out)@ + or_text(
            match o {
                Some(s) => Some(s@),
                None => None,
            },
            dflt@,
        ),
{
    match o {
        Some(s) => push_str_chars(out, s),
        None => push_str_chars(out, dflt),
    }
}

fn task_line_of(t: &JsonValue) -> (r: String)
    ensures
        r@ == task_line(*t),
{
    let mut out: Vec<char> = Vec::new();
    push_or(&mut out, str_member(t, "id"), "?");
    push_str_chars(&mut out, "  [");
    push_or(&mut out, str_member(t, "kind"), "?");
    push_str_chars(&mut out, "]  ");
    push_or(&mut out, str_member(t, "title"), "?");
    push_str_chars(&mut out, "  (");
    push_or(&mut out, str_member(t, "repo_name"), "?");
    push_str_chars(&mut out, ")");
    string_of(&out)
}

fn tab_line_of(t: &JsonValue) -> (r: String)
    ensures
        r@ == tab_line(*t),
{
    let mut out: Vec<char> = Vec::new();
    let focused = bool_member(t, "focused");
    if focused == Some(true) {
        push_str_chars(&mut out, "*");
    } else {
        push_str_chars(&mut out, " ");
    }
    push_str_chars(&mut out, " ");
    push_or(&mut out, str_member(t, "task_id"), "?");
    push_str_chars(&mut out, "  ");
    push_or(&mut out, str_member(t, "pane_id"), "-");
    push_str_chars(&mut out, "  [");
    push_or(&mut out, str_member(t, "kind"), "?");
    push_str_chars(&mut out, "]  ");
    push_or(&mut out, str_member(t, "title"), "?");
    string_of(&out)
}

fn task_lines_of(items: &Vec<JsonValue>) -> (r: Vec<String>)
    ensures
        strings_view(r@) == items@.map_values(|t: JsonValue| task_line(t)),
{
    let mut out: Vec<String> = Vec::new();
    let n = items.len();
    let mut i: usize = 0;
    while i < n
        invariant
            n == items@.len(),
            i <= n,
            out@.len() == i,
            forall|j: int| 0 <= j < i ==> (#[trigger] out@[j])@ == task_line(items@[j]),
        decreases n - i,
    {
        out.push(task_line_of(&items[i]));
        i += 1;
    }
    assert(strings_view(out@) =~= items@.map_values(|t: JsonValue| task_line(t)));
    out
}

fn tab_lines_of(items: &Vec<JsonValue>) -> (r: Vec<String>)
    ensures
        strings_view(r@) == items@.map_values(|t: JsonValue| tab_line(t)),
{
    let mut out: Vec<String> = Vec::new();
    let n = items.len();
    let mut i: usize = 0;
    while i < n
        invariant
            n == items@.len(),
            i <= n,
            out@.len() == i,
            forall|j: int| 0 <= j < i ==> (#[trigger] out@[j])@ == tab_line(items@[j]),
        decreases n - i,
    {
        out.push(tab_line_of(&items[i]));
        i += 1;
    }
    assert(strings_view(out@) =~= items@.map_values(|t: JsonValue| tab_line(t)));
    out
}

fn one_line(s: String) -> (r: Vec<String>)
    ensures
        strings_view(r@) == seq![s@],
{
    let mut v: Vec<String> = Vec::new();
    v.push(s);
    assert(strings_view(v@) =~= seq![s@]);
    v
}

/// The lines printed for a successful reply to `subcommand` carrying
/// `result`: `ok` with no result; otherwise what was opened or focused, or
/// one line per listed Task or tab (missing fields shown as `?`, a missing
/// pane as `-`).
pub fn human_success_lines(subcommand: Subcommand, result: Option<&JsonValue>) -> (r: Vec<String>)
    ensures
        strings_view(r@) == success_lines(
            subcommand,
            match result {
                Some(v) => Some(*v),
                None => None,
            },
        ),
{
    let r = match result {
        None => {
            return one_line(String::from_str("ok"));
        },
        Some(r) => r,
    };
    match subcommand {
        Subcommand::TabOpen => {
            let mut out: Vec<char> = Vec::new();
            push_str_chars(&mut out, "opened pane ");
            push_or(&mut out, str_member(r, "pane_id"), "?");
            push_str_chars(&mut out, " in task ");
            push_or(&mut out, str_member(r, "task_id"), "?");
            one_line(string_of(&out))
        },
        Subcommand::TaskList => match array_member(r, "tasks") {
            None => one_line(String::from_str("(no tasks)")),
            Some(a) => {
                if a.len() == 0 {
                    one_line(String::from_str("(no tasks)"))
                } else {
                    task_lines_of(a)
                }
            },
        },
        Subcommand::TabList => match array_member(r, "tabs") {
            None => one_line(String::from_str("(no tabs)")),
            Some(a) => {
                if a.len() == 0 {
                    one_line(String::from_str("(no tabs)"))
                } else {
                    tab_lines_of(a)
                }
            },
        },
        Subcommand::Focus => {
            let task_id = str_member(r, "task_id");
            match str_member(r, "pane_id") {
                Some(p) => {
                    let mut out: Vec<char> = Vec::new();
                    push_str_chars(&mut out, "focused pane ");
                    push_str_chars(&mut out, p);
                    push_str_chars(&mut out, " in task ");
                    push_or(&mut out, task_id, "?");
                    one_line(string_of(&out))
                },
                None => {
                    let mut out: Vec<char> = Vec::new();
                    push_str_chars(&mut out, "focused task ");
                    push_or(&mut out, task_id, "?");
                    one_line(string_of(&out))
                },
            }
        },
    }
}

// ---------------------------------------------------------------------------
// The request sent for a parsed invocation.

/// One control request: the command name and its parameters.
#[derive(Debug)]
pub struct ControlRequest {
    pub command: String,
    pub params: JsonValue,
}

/// The Task a `--task` flag asks for: `current` and an absent flag both
/// leave the choice to the server (the calling terminal's own Task), any
/// other value names a Task.
pub open spec fn resolved_task(task: Option<Seq<char>>) -> Option<Seq<char>> {
    match task {
        Some(t) => if t == "current"@ {
            None
        } else {
            Some(t)
        },
        None => None,
    }
}

/// A JSON string or `null`, as an optional text (`None` for any other
/// value).
pub open spec fn str_or_null(j: JsonValue) -> Option<Option<Seq<char>>> {
    match j {
        JsonValue::Str(s) => Some(Some(s@)),
        JsonValue::Null => Some(None),
        _ => None,
    }
}

/// A JSON array of strings or `null`, as an optional list of texts.
pub open spec fn strs_or_null(j: JsonValue) -> Option<Option<Seq<Seq<char>>>> {
    match j {
        JsonValue::Array(a) => if forall|i: int| 0 <= i < a@.len() ==> (#[trigger] a@[i]) is Str {
            Some(Some(a@.map_values(|x: JsonValue| match x {
                JsonValue::Str(s) => s@,
                _ => Seq::empty(),
            })))
        } else {
            None
        },
        JsonValue::Null => Some(None),
        _ => None,
    }
}

/// Whether `params` is an object whose members are named `names`, in order.
pub open spec fn has_members(params: JsonValue, names: Seq<Seq<char>>) -> bool {
    params matches JsonValue::Object(m) && m@.len() == names.len() && forall|i: int|
        0 <= i < names.len() ==> (#[trigger] m@[i]).0@ == names[i]
}

/// The value of the `i`-th member of an object.
pub open spec fn member_at(params: JsonValue, i: int) -> JsonValue {
    match params {
        JsonValue::Object(m) => m@[i].1,
        _ => JsonValue::Null,
    }
}

/// What the request for `cmd` carries: `tab_open` with `task` (resolved),
/// `title` and `command`; `task_list` with nothing; `tab_list` with `task`
/// (resolved) and `all`; `focus` with `task` and `pane` as given.
pub open spec fn request_is(r: ControlRequest, cmd: Subcommand, v: ParsedArgsView) -> bool {
    match cmd {
        Subcommand::TabOpen => {
            &&& r.command@ == "tab_open"@
            &&& has_members(r.params, seq!["task"@, "title"@, "command"@])
            &&& str_or_null(member_at(r.params, 0)) == Some(resolved_task(v.task))
            &&& str_or_null(member_at(r.params, 1)) == Some(v.title)
            &&& strs_or_null(member_at(r.params, 2)) == Some(
                match v.command_argv {
                    Some(c) => Some(strings_view(c)),
                    None => None,
                },
            )
        },
        Subcommand::TaskList => r.command@ == "task_list"@ && has_members(r.params, Seq::empty()),
        Subcommand::TabList => {
            &&& r.command@ == "tab_list"@
            &&& has_members(r.params, seq!["task"@, "all"@])
            &&& str_or_null(member_at(r.params, 0)) == Some(resolved_task(v.task))
            &&& member_at(r.params, 1) == JsonValue::Bool(v.all)
        },
        Subcommand::Focus => {
            &&& r.command@ == "focus"@
            &&& has_members(r.params, seq!["task"@, "pane"@])
            &&& str_or_null(member_at(r.params, 0)) == Some(v.task)
            &&& str_or_null(member_at(r.params, 1)) == Some(v.pane)
        },
    }
}

fn str_json(s: &Option<String>) -> (r: JsonValue)
    ensures
        str_or_null(r) == Some(opt_view(*s)),
{
    match s {
        Some(t) => JsonValue::Str(t.clone()),
        None => JsonValue::Null,
    }
}

fn task_json(task: &Option<String>) -> (r: JsonValue)
    ensures
        str_or_null(r) == Some(resolved_task(opt_view(*task))),
{
    match task {
        Some(t) => {
            if str_is(t.as_str(), "current") {
                JsonValue::Null
            } else {
                JsonValue::Str(t.clone())
            }
        },
        None => JsonValue::Null,
    }
}

fn argv_json(argv: &Option<Vec<String>>) -> (r: JsonValue)
    ensures
        strs_or_null(r) == Some(
            match *argv {
                Some(c) => Some(strings_view(c@)),
                None => None,
            },
        ),
{
    match argv {
        None => JsonValue::Null,
        Some(c) => {
            let mut items: Vec<JsonValue> = Vec::new();
            let n = c.len();
            let mut i: usize = 0;
            while i < n
                invariant
                    n == c@.len(),
                    i <= n,
                    items@.len() == i,
                    forall|j: int| 0 <= j < i ==> (#[trigger] items@[j]) == JsonValue::Str(c@[j]),
                decreases n - i,
            {
                items.push(JsonValue::Str(c[i].clone()));
                i += 1;
            }
            let ghost a = items@;
            assert forall|j: int| 0 <= j < a.len() implies (#[trigger] a[j]) is Str by {
                assert(a[j] == JsonValue::Str(c@[j]));
            }
            let r = JsonValue::Array(items);
            assert(a.map_values(|x: JsonValue| match x {
                JsonValue::Str(s) => s@,
                _ => Seq::empty(),
            }) =~= strings_view(c@)) by {
                assert forall|j: int| 0 <= j < a.len() implies a.map_values(|x: JsonValue| match x {
                    JsonValue::Str(s) => s@,
                    _ => Seq::empty(),
                })[j] == strings_view(c@)[j] by {
                    assert(a[j] == JsonValue::Str(c@[j]));
                }
            }
            r
        },
    }
}

fn object_of(members: Vec<(String, JsonValue)>) -> (r: JsonValue)
    ensures
        r == JsonValue::Object(members),
{
    JsonValue::Object(members)
}

/// The control request for a parsed invocation.
pub fn build_request(subcommand: Subcommand, parsed: &ParsedArgs) -> (r: ControlRequest)
    ensures
        request_is(r, subcommand, parsed@),
{
    let mut m: Vec<(String, JsonValue)> = Vec::new();
    match subcommand {
        Subcommand::TabOpen => {
            m.push((String::from_str("task"), task_json(&parsed.task)));
            m.push((String::from_str("title"), str_json(&parsed.title)));
            m.push((String::from_str("command"), argv_json(&parsed.command_argv)));
            let r = ControlRequest { command: String::from_str("tab_open"), params: object_of(m) };
            assert(has_members(r.params, seq!["task"@, "title"@, "command"@]));
            r
        },
        Subcommand::TaskList => {
            ControlRequest { command: String::from_str("task_list"), params: object_of(m) }
        },
        Subcommand::TabList => {
            m.push((String::from_str("task"), task_json(&parsed.task)));
            m.push((String::from_str("all"), JsonValue::Bool(parsed.all)));
            let r = ControlRequest { command: String::from_str("tab_list"), params: object_of(m) };
            assert(has_members(r.params, seq!["task"@, "all"@]));
            r
        },
        Subcommand::Focus => {
            m.push((String::from_str("task"), str_json(&parsed.task)));
            m.push((String::from_str("pane"), str_json(&parsed.pane)));
            let r = ControlRequest { command: String::from_str("focus"), params: object_of(m) };
            assert(has_members(r.params, seq!["task"@, "pane"@]));
            r
        },
    }
}

/// The `task` of a `tab open` or `tab list` request is the first member,
/// named `task`: the `--task` value itself for any value but `current`,
/// and `null` (the calling terminal's own Task) for `current` or no flag.
/// `tab list` also sends `all`, the `--all` flag.
pub proof fn law_request_task_member(r: ControlRequest, cmd: Subcommand, v: ParsedArgsView)
    requires
        cmd == Subcommand::TabOpen || cmd == Subcommand::TabList,
        request_is(r, cmd, v),
    ensures
        (r.params matches JsonValue::Object(m) && m@.len() >= 2 && m@[0].0@ == "task"@),
        match v.task {
            Some(t) => if t == "current"@ {
                member_at(r.params, 0) is Null
            } else {
                (member_at(r.params, 0) matches JsonValue::Str(s) && s@ == t)
            },
            None => member_at(r.params, 0) is Null,
        },
        cmd == Subcommand::TabList ==> member_at(r.params, 1) == JsonValue::Bool(v.all),
{
}

} // verus!
