//! The raw command language: a line of whitespace-separated words, as a
//! shell would type it, turned into a request.
use vstd::prelude::*;
use crate::text::{
    views_of, ws_tokens, split_ws, split_once, split_once_exec, starts_with_char, str_eq, owned,
    lit, chars_of, str_is_empty, join_with, join_strings, replace_char, replace_char_exec, concat3,
    parse_unsigned, parse_u16, parse_i64_abs, parse_i64_abs_exec,
};
use crate::proto::{Request, RequestView, SplitOrientation, ResizeDir};

verus! {

// ---------------------------------------------------------------------------
// Targets: `session:window.pane`
// ---------------------------------------------------------------------------

/// The parts of a target: session, window and pane, each optional.
#[derive(Debug)]
pub struct ParsedTarget {
    pub session: Option<String>,
    pub window: Option<String>,
    pub pane: Option<String>,
}

/// What a `ParsedTarget` holds.
pub struct TargetView {
    pub session: Option<Seq<char>>,
    pub window: Option<Seq<char>>,
    pub pane: Option<Seq<char>>,
}

impl View for ParsedTarget {
    type V = TargetView;

    open spec fn view(&self) -> TargetView {
        TargetView {
            session: self.session.deep_view(),
            window: self.window.deep_view(),
            pane: self.pane.deep_view(),
        }
    }
}

/// A target naming nothing.
pub open spec fn no_target() -> TargetView {
    TargetView { session: None, window: None, pane: None }
}

/// `Some(s)` for a non-empty `s`, else `None`.
pub open spec fn non_empty(s: Seq<char>) -> Option<Seq<char>> {
    if s.len() > 0 {
        Some(s)
    } else {
        None
    }
}

/// The window and pane of `window.pane` (or of a bare `window`) set on `t`;
/// empty parts set nothing.
pub open spec fn window_pane(v: Seq<char>, t: TargetView) -> TargetView {
    if v.len() == 0 {
        t
    } else {
        match split_once(v, '.') {
            Some((w, p)) => TargetView {
                window: if w.len() > 0 {
                    Some(w)
                } else {
                    t.window
                },
                pane: if p.len() > 0 {
                    Some(p)
                } else {
                    t.pane
                },
                ..t
            },
            None => TargetView { window: Some(v), ..t },
        }
    }
}

/// The target that `session:window.pane` names; without a colon, the whole
/// value is `window.pane`.
pub open spec fn tmux_target(v: Seq<char>) -> TargetView {
    match split_once(v, ':') {
        Some((s, rest)) => window_pane(rest, TargetView { session: non_empty(s), ..no_target() }),
        None => window_pane(v, no_target()),
    }
}

fn opt_non_empty(s: String) -> (r: Option<String>)
    ensures
        r.deep_view() == non_empty(s@),
{
    if !str_is_empty(s.as_str()) {
        Some(s)
    } else {
        None
    }
}

/// Sets the window and pane that `value` (`window.pane` or `window`) names.
pub fn parse_window_pane(value: &str, target: &mut ParsedTarget)
    ensures
        final(target)@ == window_pane(value@, old(target)@),
{
    if str_is_empty(value) {
        return;
    }
    match split_once_exec(value, '.') {
        Some((window, pane)) => {
            if !str_is_empty(window.as_str()) {
                target.window = Some(window);
            }
            if !str_is_empty(pane.as_str()) {
                target.pane = Some(pane);
            }
        },
        None => {
            target.window = Some(owned(value));
        },
    }
}

/// The session, window and pane that a target `session:window.pane` names.
pub fn parse_tmux_target(value: &str) -> (r: ParsedTarget)
    ensures
        r@ == tmux_target(value@),
{
    let mut target = ParsedTarget { session: None, window: None, pane: None };
    match split_once_exec(value, ':') {
        Some((session, rest)) => {
            target.session = opt_non_empty(session);
            parse_window_pane(rest.as_str(), &mut target);
        },
        None => {
            parse_window_pane(value, &mut target);
        },
    }
    target
}

/// The session part of a raw target: what precedes a colon (when not
/// empty), or the whole target.
pub open spec fn session_of_target(v: Seq<char>) -> Option<Seq<char>> {
    if v.len() == 0 {
        None
    } else {
        match split_once(v, ':') {
            Some((s, _)) => non_empty(s),
            None => Some(v),
        }
    }
}

/// The session part of a raw target.
pub fn session_from_raw_target(target: &str) -> (r: Option<String>)
    ensures
        r.deep_view() == session_of_target(target@),
{
    if str_is_empty(target) {
        return None;
    }
    match split_once_exec(target, ':') {
        Some((session, _rest)) => opt_non_empty(session),
        None => Some(owned(target)),
    }
}

// ---------------------------------------------------------------------------
// Words and flags
// ---------------------------------------------------------------------------

/// Whether a word is a flag: it starts with `-`.
pub open spec fn is_flag(w: Seq<char>) -> bool {
    starts_with_char(w, '-')
}

/// Whether a word starts with `-`.
pub fn starts_with_dash(w: &str) -> (r: bool)
    ensures
        r == is_flag(w@),
{
    let cs = chars_of(w);
    cs.len() > 0 && cs[0] == '-'
}

/// The words that are not flags, in order.
pub open spec fn non_flags(t: Seq<Seq<char>>) -> Seq<Seq<char>>
    decreases t.len(),
{
    if t.len() == 0 {
        seq![]
    } else {
        non_flags(t.drop_last()) + if is_flag(t.last()) {
            seq![]
        } else {
            seq![t.last()]
        }
    }
}

/// The words from `start` on that are not flags.
fn non_flags_exec(t: &Vec<String>, start: usize) -> (r: Vec<String>)
    requires
        start <= t.len(),
    ensures
        views_of(r@) == non_flags(views_of(t@).skip(start as int)),
{
    let ghost tv = views_of(t@).skip(start as int);
    let mut out: Vec<String> = Vec::new();
    let mut i: usize = start;
    while i < t.len()
        invariant
            start <= i <= t.len(),
            tv == views_of(t@).skip(start as int),
            views_of(out@) == non_flags(tv.take(i - start)),
        decreases t.len() - i,
    {
        proof {
            assert(tv.take(i + 1 - start).drop_last() =~= tv.take(i - start));
            assert(tv.take(i + 1 - start).last() == t@[i as int]@);
        }
        if !starts_with_dash(t[i].as_str()) {
            out.push(t[i].clone());
        }
        proof {
            assert(views_of(out@) =~= non_flags(tv.take(i + 1 - start)));
        }
        i = i + 1;
    }
    proof {
        assert(tv.take(i - start) =~= tv);
    }
    out
}

/// The first word from `start` on that is not a flag.
pub open spec fn first_non_flag(t: Seq<Seq<char>>) -> Option<Seq<char>> {
    let p = non_flags(t);
    if p.len() > 0 {
        Some(p[0])
    } else {
        None
    }
}

/// The first word that is not a flag (the name argument of `show-options`
/// and `show-environment`).
pub fn parse_name_arg(t: &Vec<String>, start: usize) -> (r: Option<String>)
    requires
        start <= t.len(),
    ensures
        r.deep_view() == first_non_flag(views_of(t@).skip(start as int)),
{
    let parts = non_flags_exec(t, start);
    if parts.len() > 0 {
        Some(parts[0].clone())
    } else {
        None
    }
}

/// The words that are not flags, joined with spaces; an error when there
/// are none.
pub open spec fn message_of(t: Seq<Seq<char>>) -> Result<Seq<char>, Seq<char>> {
    let p = non_flags(t);
    if p.len() == 0 {
        Err("display-message requires a message payload"@)
    } else {
        Ok(join_with(p, " "@))
    }
}

/// The message of `display-message`: its words that are not flags.
pub fn parse_message_args(t: &Vec<String>, start: usize) -> (r: Result<String, String>)
    requires
        start <= t.len(),
    ensures
        match (r, message_of(views_of(t@).skip(start as int))) {
            (Ok(a), Ok(b)) => a@ == b,
            (Err(a), Err(b)) => a@ == b,
            _ => false,
        },
{
    let parts = non_flags_exec(t, start);
    if parts.len() == 0 {
        return Err(lit("display-message requires a message payload"));
    }
    Ok(join_strings(parts.as_slice(), " "))
}

/// A name and a value from the words that are not flags: the first word,
/// and the others joined with spaces.
pub open spec fn name_value_of(t: Seq<Seq<char>>) -> Option<(Seq<char>, Seq<char>)> {
    let p = non_flags(t);
    if p.len() < 2 {
        None
    } else {
        Some((p[0], join_with(p.skip(1), " "@)))
    }
}

fn parse_name_value(t: &Vec<String>, start: usize) -> (r: Option<(String, String)>)
    requires
        start <= t.len(),
    ensures
        match (r, name_value_of(views_of(t@).skip(start as int))) {
            (Some((a, b)), Some((x, y))) => a@ == x && b@ == y,
            (None, None) => true,
            _ => false,
        },
{
    let parts = non_flags_exec(t, start);
    if parts.len() < 2 {
        return None;
    }
    let ghost pv = views_of(parts@);
    let mut rest: Vec<String> = Vec::new();
    let mut i: usize = 1;
    while i < parts.len()
        invariant
            1 <= i <= parts.len(),
            pv == views_of(parts@),
            views_of(rest@) == pv.skip(1).take(i - 1),
        decreases parts.len() - i,
    {
        let ghost prev = views_of(rest@);
        rest.push(parts[i].clone());
        proof {
            assert(views_of(rest@) =~= prev.push(pv[i as int]));
            assert(pv.skip(1).take(i as int) =~= pv.skip(1).take(i - 1).push(pv[i as int]));
        }
        i = i + 1;
    }
    proof {
        assert(pv.skip(1).take(i - 1) =~= pv.skip(1));
    }
    Some((parts[0].clone(), join_strings(rest.as_slice(), " ")))
}

/// `set-option NAME VALUE...`.
pub fn parse_set_option(t: &Vec<String>, start: usize) -> (r: Result<Request, String>)
    requires
        start <= t.len(),
    ensures
        match name_value_of(views_of(t@).skip(start as int)) {
            Some((n, v)) => r matches Ok(q) && q@ == RequestView::SetOption { name: n, value: v },
            None => r matches Err(e) && e@ == "set-option requires name and value"@,
        },
{
    match parse_name_value(t, start) {
        Some((name, value)) => Ok(Request::SetOption { name, value }),
        None => Err(lit("set-option requires name and value")),
    }
}

/// `set-environment NAME VALUE...`.
pub fn parse_set_environment(t: &Vec<String>, start: usize) -> (r: Result<Request, String>)
    requires
        start <= t.len(),
    ensures
        match name_value_of(views_of(t@).skip(start as int)) {
            Some((n, v)) => r matches Ok(q) && q@ == RequestView::SetEnvironment { name: n, value: v },
            None => r matches Err(e) && e@ == "set-environment requires name and value"@,
        },
{
    match parse_name_value(t, start) {
        Some((name, value)) => Ok(Request::SetEnvironment { name, value }),
        None => Err(lit("set-environment requires name and value")),
    }
}

// ---------------------------------------------------------------------------
// Scanning the words of a command
// ---------------------------------------------------------------------------

/// From word `i` on: the value of `flag` (the word after it), or else the
/// first word that is not a flag; the last `flag` wins over a word.
pub open spec fn scan_named(t: Seq<Seq<char>>, flag: Seq<char>, i: int, cur: Option<Seq<char>>) -> Option<
    Seq<char>,
>
    decreases t.len() - i,
{
    if i < 0 || i >= t.len() {
        cur
    } else if t[i] == flag && i + 1 < t.len() {
        scan_named(t, flag, i + 2, Some(t[i + 1]))
    } else if !is_flag(t[i]) && cur is None {
        scan_named(t, flag, i + 1, Some(t[i]))
    } else {
        scan_named(t, flag, i + 1, cur)
    }
}

fn scan_named_exec(t: &Vec<String>, flag: &str) -> (r: Option<String>)
    ensures
        r.deep_view() == scan_named(views_of(t@), flag@, 1, None),
{
    let ghost tv = views_of(t@);
    let mut cur: Option<String> = None;
    let mut i: usize = 1;
    while i < t.len()
        invariant
            1 <= i,
            tv == views_of(t@),
            scan_named(tv, flag@, 1, None) == scan_named(tv, flag@, i as int, cur.deep_view()),
        decreases t.len() - i,
    {
        if str_eq(t[i].as_str(), flag) && i + 1 < t.len() {
            cur = Some(t[i + 1].clone());
            i = i + 2;
        } else if !starts_with_dash(t[i].as_str()) && cur.is_none() {
            cur = Some(t[i].clone());
            i = i + 1;
        } else {
            i = i + 1;
        }
    }
    cur
}

/// `rename-session`: the target (`-t`, else the first word) and the new
/// name (`-n`, else the next word).
pub open spec fn scan_rename(t: Seq<Seq<char>>, i: int, target: Option<Seq<char>>, new_name: Option<Seq<char>>) -> (
    Option<Seq<char>>,
    Option<Seq<char>>,
)
    decreases t.len() - i,
{
    if i < 0 || i >= t.len() {
        (target, new_name)
    } else if t[i] == "-t"@ && i + 1 < t.len() {
        scan_rename(t, i + 2, Some(t[i + 1]), new_name)
    } else if t[i] == "-n"@ && i + 1 < t.len() {
        scan_rename(t, i + 2, target, Some(t[i + 1]))
    } else if !is_flag(t[i]) && target is None {
        scan_rename(t, i + 1, Some(t[i]), new_name)
    } else if !is_flag(t[i]) && new_name is None {
        scan_rename(t, i + 1, target, Some(t[i]))
    } else {
        scan_rename(t, i + 1, target, new_name)
    }
}

fn scan_rename_exec(t: &Vec<String>) -> (r: (Option<String>, Option<String>))
    ensures
        (r.0.deep_view(), r.1.deep_view()) == scan_rename(views_of(t@), 1, None, None),
{
    let ghost tv = views_of(t@);
    let mut target: Option<String> = None;
    let mut new_name: Option<String> = None;
    let mut i: usize = 1;
    while i < t.len()
        invariant
            1 <= i,
            tv == views_of(t@),
            scan_rename(tv, 1, None, None) == scan_rename(tv, i as int, target.deep_view(), new_name.deep_view()),
        decreases t.len() - i,
    {
        if str_eq(t[i].as_str(), "-t") && i + 1 < t.len() {
            target = Some(t[i + 1].clone());
            i = i + 2;
        } else if str_eq(t[i].as_str(), "-n") && i + 1 < t.len() {
            new_name = Some(t[i + 1].clone());
            i = i + 2;
        } else if !starts_with_dash(t[i].as_str()) && target.is_none() {
            target = Some(t[i].clone());
            i = i + 1;
        } else if !starts_with_dash(t[i].as_str()) && new_name.is_none() {
            new_name = Some(t[i].clone());
            i = i + 1;
        } else {
            i = i + 1;
        }
    }
    (target, new_name)
}

/// `new-window`: the raw target (`-t`) and the name (`-n`).
pub open spec fn scan_new_window(t: Seq<Seq<char>>, i: int, target: Option<Seq<char>>, name: Option<Seq<char>>) -> (
    Option<Seq<char>>,
    Option<Seq<char>>,
)
    decreases t.len() - i,
{
    if i < 0 || i >= t.len() {
        (target, name)
    } else if t[i] == "-t"@ && i + 1 < t.len() {
        scan_new_window(t, i + 2, Some(t[i + 1]), name)
    } else if t[i] == "-n"@ && i + 1 < t.len() {
        scan_new_window(t, i + 2, target, Some(t[i + 1]))
    } else {
        scan_new_window(t, i + 1, target, name)
    }
}

fn scan_new_window_exec(t: &Vec<String>) -> (r: (Option<String>, Option<String>))
    ensures
        (r.0.deep_view(), r.1.deep_view()) == scan_new_window(views_of(t@), 1, None, None),
{
    let ghost tv = views_of(t@);
    let mut target: Option<String> = None;
    let mut name: Option<String> = None;
    let mut i: usize = 1;
    while i < t.len()
        invariant
            1 <= i,
            tv == views_of(t@),
            scan_new_window(tv, 1, None, None) == scan_new_window(tv, i as int, target.deep_view(), name.deep_view()),
        decreases t.len() - i,
    {
        if str_eq(t[i].as_str(), "-t") && i + 1 < t.len() {
            target = Some(t[i + 1].clone());
            i = i + 2;
        } else if str_eq(t[i].as_str(), "-n") && i + 1 < t.len() {
            name = Some(t[i + 1].clone());
            i = i + 2;
        } else {
            i = i + 1;
        }
    }
    (target, name)
}

/// `rename-window`: the target (`-t`) and the new name (`-n`, else the
/// first word).
pub open spec fn scan_rename_window(t: Seq<Seq<char>>, i: int, parsed: TargetView, new_name: Option<Seq<char>>) -> (
    TargetView,
    Option<Seq<char>>,
)
    decreases t.len() - i,
{
    if i < 0 || i >= t.len() {
        (parsed, new_name)
    } else if t[i] == "-t"@ && i + 1 < t.len() {
        scan_rename_window(t, i + 2, tmux_target(t[i + 1]), new_name)
    } else if t[i] == "-n"@ && i + 1 < t.len() {
        scan_rename_window(t, i + 2, parsed, Some(t[i + 1]))
    } else if !is_flag(t[i]) && new_name is None {
        scan_rename_window(t, i + 1, parsed, Some(t[i]))
    } else {
        scan_rename_window(t, i + 1, parsed, new_name)
    }
}

fn scan_rename_window_exec(t: &Vec<String>) -> (r: (ParsedTarget, Option<String>))
    ensures
        (r.0@, r.1.deep_view()) == scan_rename_window(views_of(t@), 1, no_target(), None),
{
    let ghost tv = views_of(t@);
    let mut parsed = ParsedTarget { session: None, window: None, pane: None };
    let mut new_name: Option<String> = None;
    let mut i: usize = 1;
    while i < t.len()
        invariant
            1 <= i,
            tv == views_of(t@),
            scan_rename_window(tv, 1, no_target(), None) == scan_rename_window(tv, i as int, parsed@, new_name.deep_view()),
        decreases t.len() - i,
    {
        if str_eq(t[i].as_str(), "-t") && i + 1 < t.len() {
            parsed = parse_tmux_target(t[i + 1].as_str());
            i = i + 2;
        } else if str_eq(t[i].as_str(), "-n") && i + 1 < t.len() {
            new_name = Some(t[i + 1].clone());
            i = i + 2;
        } else if !starts_with_dash(t[i].as_str()) && new_name.is_none() {
            new_name = Some(t[i].clone());
            i = i + 1;
        } else {
            i = i + 1;
        }
    }
    (parsed, new_name)
}

/// `split-window`: the target (`-t`), the title (`-n`) and the orientation
/// (`-h` side by side, `-v` stacked; the last one given wins).
pub open spec fn scan_split(
    t: Seq<Seq<char>>,
    i: int,
    parsed: TargetView,
    title: Option<Seq<char>>,
    orientation: SplitOrientation,
) -> (TargetView, Option<Seq<char>>, SplitOrientation)
    decreases t.len() - i,
{
    if i < 0 || i >= t.len() {
        (parsed, title, orientation)
    } else if t[i] == "-t"@ && i + 1 < t.len() {
        scan_split(t, i + 2, tmux_target(t[i + 1]), title, orientation)
    } else if t[i] == "-h"@ {
        scan_split(t, i + 1, parsed, title, SplitOrientation::Vertical)
    } else if t[i] == "-v"@ {
        scan_split(t, i + 1, parsed, title, SplitOrientation::Horizontal)
    } else if t[i] == "-n"@ && i + 1 < t.len() {
        scan_split(t, i + 2, parsed, Some(t[i + 1]), orientation)
    } else {
        scan_split(t, i + 1, parsed, title, orientation)
    }
}

fn scan_split_exec(t: &Vec<String>) -> (r: (ParsedTarget, Option<String>, SplitOrientation))
    ensures
        (r.0@, r.1.deep_view(), r.2) == scan_split(views_of(t@), 1, no_target(), None, SplitOrientation::Horizontal),
{
    let ghost tv = views_of(t@);
    let mut parsed = ParsedTarget { session: None, window: None, pane: None };
    let mut title: Option<String> = None;
    let mut orientation = SplitOrientation::Horizontal;
    let mut i: usize = 1;
    while i < t.len()
        invariant
            1 <= i,
            tv == views_of(t@),
            scan_split(tv, 1, no_target(), None, SplitOrientation::Horizontal) == scan_split(
                tv,
                i as int,
                parsed@,
                title.deep_view(),
                orientation,
            ),
        decreases t.len() - i,
    {
        if str_eq(t[i].as_str(), "-t") && i + 1 < t.len() {
            parsed = parse_tmux_target(t[i + 1].as_str());
            i = i + 2;
        } else if str_eq(t[i].as_str(), "-h") {
            orientation = SplitOrientation::Vertical;
            i = i + 1;
        } else if str_eq(t[i].as_str(), "-v") {
            orientation = SplitOrientation::Horizontal;
            i = i + 1;
        } else if str_eq(t[i].as_str(), "-n") && i + 1 < t.len() {
            title = Some(t[i + 1].clone());
            i = i + 2;
        } else {
            i = i + 1;
        }
    }
    (parsed, title, orientation)
}

/// `send-keys`: the target (`-t`), literal mode (`-l`) and every other word
/// as a key.
pub open spec fn scan_send_keys(t: Seq<Seq<char>>, i: int, parsed: TargetView, literal: bool, keys: Seq<Seq<char>>) -> (
    TargetView,
    bool,
    Seq<Seq<char>>,
)
    decreases t.len() - i,
{
    if i < 0 || i >= t.len() {
        (parsed, literal, keys)
    } else if t[i] == "-t"@ && i + 1 < t.len() {
        scan_send_keys(t, i + 2, tmux_target(t[i + 1]), literal, keys)
    } else if t[i] == "-l"@ {
        scan_send_keys(t, i + 1, parsed, true, keys)
    } else {
        scan_send_keys(t, i + 1, parsed, literal, keys.push(t[i]))
    }
}

fn scan_send_keys_exec(t: &Vec<String>) -> (r: (ParsedTarget, bool, Vec<String>))
    ensures
        (r.0@, r.1, views_of(r.2@)) == scan_send_keys(views_of(t@), 1, no_target(), false, seq![]),
{
    let ghost tv = views_of(t@);
    let mut parsed = ParsedTarget { session: None, window: None, pane: None };
    let mut literal = false;
    let mut keys: Vec<String> = Vec::new();
    let mut i: usize = 1;
    proof {
        assert(views_of(keys@) =~= Seq::<Seq<char>>::empty());
    }
    while i < t.len()
        invariant
            1 <= i,
            tv == views_of(t@),
            scan_send_keys(tv, 1, no_target(), false, seq![]) == scan_send_keys(
                tv,
                i as int,
                parsed@,
                literal,
                views_of(keys@),
            ),
        decreases t.len() - i,
    {
        if str_eq(t[i].as_str(), "-t") && i + 1 < t.len() {
            parsed = parse_tmux_target(t[i + 1].as_str());
            i = i + 2;
        } else if str_eq(t[i].as_str(), "-l") {
            literal = true;
            i = i + 1;
        } else {
            let ghost before = views_of(keys@);
            keys.push(t[i].clone());
            proof {
                assert(views_of(keys@) =~= before.push(tv[i as int]));
            }
            i = i + 1;
        }
    }
    (parsed, literal, keys)
}

/// `resize-pane`: the target (`-t`), the direction (`-U`, `-D`, `-L`,
/// `-R`; down by default) and the amount (a number word; one by default).
pub open spec fn scan_resize(t: Seq<Seq<char>>, i: int, parsed: TargetView, direction: ResizeDir, amount: u16) -> (
    TargetView,
    ResizeDir,
    u16,
)
    decreases t.len() - i,
{
    if i < 0 || i >= t.len() {
        (parsed, direction, amount)
    } else if t[i] == "-t"@ && i + 1 < t.len() {
        scan_resize(t, i + 2, tmux_target(t[i + 1]), direction, amount)
    } else if t[i] == "-U"@ {
        scan_resize(t, i + 1, parsed, ResizeDir::Up, amount)
    } else if t[i] == "-D"@ {
        scan_resize(t, i + 1, parsed, ResizeDir::Down, amount)
    } else if t[i] == "-L"@ {
        scan_resize(t, i + 1, parsed, ResizeDir::Left, amount)
    } else if t[i] == "-R"@ {
        scan_resize(t, i + 1, parsed, ResizeDir::Right, amount)
    } else {
        match parse_unsigned(t[i], u16::MAX as nat) {
            Some(n) => scan_resize(t, i + 1, parsed, direction, n as u16),
            None => scan_resize(t, i + 1, parsed, direction, amount),
        }
    }
}

fn scan_resize_exec(t: &Vec<String>) -> (r: (ParsedTarget, ResizeDir, u16))
    ensures
        (r.0@, r.1, r.2) == scan_resize(views_of(t@), 1, no_target(), ResizeDir::Down, 1),
{
    let ghost tv = views_of(t@);
    let mut parsed = ParsedTarget { session: None, window: None, pane: None };
    let mut direction = ResizeDir::Down;
    let mut amount: u16 = 1;
    let mut i: usize = 1;
    while i < t.len()
        invariant
            1 <= i,
            tv == views_of(t@),
            scan_resize(tv, 1, no_target(), ResizeDir::Down, 1) == scan_resize(tv, i as int, parsed@, direction, amount),
        decreases t.len() - i,
    {
        if str_eq(t[i].as_str(), "-t") && i + 1 < t.len() {
            parsed = parse_tmux_target(t[i + 1].as_str());
            i = i + 2;
        } else if str_eq(t[i].as_str(), "-U") {
            direction = ResizeDir::Up;
            i = i + 1;
        } else if str_eq(t[i].as_str(), "-D") {
            direction = ResizeDir::Down;
            i = i + 1;
        } else if str_eq(t[i].as_str(), "-L") {
            direction = ResizeDir::Left;
            i = i + 1;
        } else if str_eq(t[i].as_str(), "-R") {
            direction = ResizeDir::Right;
            i = i + 1;
        } else {
            if let Some(n) = parse_u16(t[i].as_str()) {
                amount = n;
            }
            i = i + 1;
        }
    }
    (parsed, direction, amount)
}

/// `capture-pane`: the target (`-t`) and the number of lines (`-S N`, its
/// absolute value).
pub open spec fn scan_capture(t: Seq<Seq<char>>, i: int, parsed: TargetView, lines: Option<usize>) -> (
    TargetView,
    Option<usize>,
)
    decreases t.len() - i,
{
    if i < 0 || i >= t.len() {
        (parsed, lines)
    } else if t[i] == "-t"@ && i + 1 < t.len() {
        scan_capture(t, i + 2, tmux_target(t[i + 1]), lines)
    } else if t[i] == "-S"@ && i + 1 < t.len() {
        match parse_i64_abs(t[i + 1]) {
            Some(n) => scan_capture(t, i + 2, parsed, Some((n as u64) as usize)),
            None => scan_capture(t, i + 2, parsed, lines),
        }
    } else {
        scan_capture(t, i + 1, parsed, lines)
    }
}

fn scan_capture_exec(t: &Vec<String>) -> (r: (ParsedTarget, Option<usize>))
    ensures
        (r.0@, r.1) == scan_capture(views_of(t@), 1, no_target(), None),
{
    let ghost tv = views_of(t@);
    let mut parsed = ParsedTarget { session: None, window: None, pane: None };
    let mut lines: Option<usize> = None;
    let mut i: usize = 1;
    while i < t.len()
        invariant
            1 <= i,
            tv == views_of(t@),
            scan_capture(tv, 1, no_target(), None) == scan_capture(tv, i as int, parsed@, lines),
        decreases t.len() - i,
    {
        if str_eq(t[i].as_str(), "-t") && i + 1 < t.len() {
            parsed = parse_tmux_target(t[i + 1].as_str());
            i = i + 2;
        } else if str_eq(t[i].as_str(), "-S") && i + 1 < t.len() {
            if let Some(n) = parse_i64_abs_exec(t[i + 1].as_str()) {
                lines = Some(n as usize);
            }
            i = i + 2;
        } else {
            i = i + 1;
        }
    }
    (parsed, lines)
}

/// The target of a `-t` flag (the last one wins).
pub open spec fn scan_target(t: Seq<Seq<char>>, i: int, parsed: TargetView) -> TargetView
    decreases t.len() - i,
{
    if i < 0 || i >= t.len() {
        parsed
    } else if t[i] == "-t"@ && i + 1 < t.len() {
        scan_target(t, i + 2, tmux_target(t[i + 1]))
    } else {
        scan_target(t, i + 1, parsed)
    }
}

/// The target that the `-t` flag among the words after the command names.
pub fn parse_target_flag(t: &Vec<String>) -> (r: ParsedTarget)
    ensures
        r@ == scan_target(views_of(t@), 1, no_target()),
{
    let ghost tv = views_of(t@);
    let mut parsed = ParsedTarget { session: None, window: None, pane: None };
    let mut i: usize = 1;
    while i < t.len()
        invariant
            1 <= i,
            tv == views_of(t@),
            scan_target(tv, 1, no_target()) == scan_target(tv, i as int, parsed@),
        decreases t.len() - i,
    {
        if str_eq(t[i].as_str(), "-t") && i + 1 < t.len() {
            parsed = parse_tmux_target(t[i + 1].as_str());
            i = i + 2;
        } else {
            i = i + 1;
        }
    }
    parsed
}

/// The session named by the first `-t` flag, or else by the first word that
/// is not a flag.
pub open spec fn scan_session_target(t: Seq<Seq<char>>, i: int) -> Option<Seq<char>>
    decreases t.len() - i,
{
    if i < 0 || i >= t.len() {
        None
    } else if t[i] == "-t"@ && i + 1 < t.len() {
        session_of_target(t[i + 1])
    } else if !is_flag(t[i]) {
        session_of_target(t[i])
    } else {
        scan_session_target(t, i + 1)
    }
}

/// The session that the words after the command name.
pub fn parse_session_target_flag(t: &Vec<String>) -> (r: Option<String>)
    ensures
        r.deep_view() == scan_session_target(views_of(t@), 1),
{
    let ghost tv = views_of(t@);
    let mut i: usize = 1;
    while i < t.len()
        invariant
            1 <= i,
            tv == views_of(t@),
            scan_session_target(tv, 1) == scan_session_target(tv, i as int),
        decreases t.len() - i,
    {
        if str_eq(t[i].as_str(), "-t") && i + 1 < t.len() {
            return session_from_raw_target(t[i + 1].as_str());
        } else if !starts_with_dash(t[i].as_str()) {
            return session_from_raw_target(t[i].as_str());
        }
        i = i + 1;
    }
    None
}

/// The target (`-t`, the last one wins) and the other words of a command
/// that the compatibility layer handles.
pub open spec fn scan_extract(t: Seq<Seq<char>>, i: int, target: Option<Seq<char>>, args: Seq<Seq<char>>) -> (
    Option<Seq<char>>,
    Seq<Seq<char>>,
)
    decreases t.len() - i,
{
    if i < 0 || i >= t.len() {
        (target, args)
    } else if t[i] == "-t"@ && i + 1 < t.len() {
        scan_extract(t, i + 2, Some(t[i + 1]), args)
    } else {
        scan_extract(t, i + 1, target, args.push(t[i]))
    }
}

/// Splits the words after a command into its target and its arguments.
pub fn extract_target_and_args(t: &Vec<String>) -> (r: (Option<String>, Vec<String>))
    ensures
        (r.0.deep_view(), views_of(r.1@)) == scan_extract(views_of(t@), 1, None, seq![]),
{
    let ghost tv = views_of(t@);
    let mut target: Option<String> = None;
    let mut args: Vec<String> = Vec::new();
    let mut i: usize = 1;
    proof {
        assert(views_of(args@) =~= Seq::<Seq<char>>::empty());
    }
    while i < t.len()
        invariant
            1 <= i,
            tv == views_of(t@),
            scan_extract(tv, 1, None, seq![]) == scan_extract(tv, i as int, target.deep_view(), views_of(args@)),
        decreases t.len() - i,
    {
        if str_eq(t[i].as_str(), "-t") && i + 1 < t.len() {
            target = Some(t[i + 1].clone());
            i = i + 2;
        } else {
            let ghost before = views_of(args@);
            args.push(t[i].clone());
            proof {
                assert(views_of(args@) =~= before.push(tv[i as int]));
            }
            i = i + 1;
        }
    }
    (target, args)
}

// ---------------------------------------------------------------------------
// Parsing a command line
// ---------------------------------------------------------------------------

/// Whether the compatibility layer handles the command `n` (its words
/// joined by underscores).
pub open spec fn compat_supported(n: Seq<char>) -> bool {
    ||| n == "bind_key"@
    ||| n == "break_pane"@
    ||| n == "capture_pane"@
    ||| n == "choose_buffer"@
    ||| n == "choose_client"@
    ||| n == "choose_tree"@
    ||| n == "clear_history"@
    ||| n == "clear_prompt_history"@
    ||| n == "clock_mode"@
    ||| n == "command_prompt"@
    ||| n == "confirm_before"@
    ||| n == "copy_mode"@
    ||| n == "customize_mode"@
    ||| n == "delete_buffer"@
    ||| n == "display_menu"@
    ||| n == "display_panes"@
    ||| n == "display_popup"@
    ||| n == "find_window"@
    ||| n == "if_shell"@
    ||| n == "join_pane"@
    ||| n == "link_window"@
    ||| n == "list_buffers"@
    ||| n == "list_keys"@
    ||| n == "load_buffer"@
    ||| n == "move_pane"@
    ||| n == "move_window"@
    ||| n == "next_layout"@
    ||| n == "paste_buffer"@
    ||| n == "pipe_pane"@
    ||| n == "previous_layout"@
    ||| n == "refresh_client"@
    ||| n == "resize_pane"@
    ||| n == "resize_window"@
    ||| n == "respawn_pane"@
    ||| n == "respawn_window"@
    ||| n == "rotate_window"@
    ||| n == "run_shell"@
    ||| n == "save_buffer"@
    ||| n == "select_layout"@
    ||| n == "send_prefix"@
    ||| n == "server_access"@
    ||| n == "set_buffer"@
    ||| n == "set_hook"@
    ||| n == "set_window_option"@
    ||| n == "show_buffer"@
    ||| n == "show_hooks"@
    ||| n == "show_prompt_history"@
    ||| n == "show_window_options"@
    ||| n == "source_file"@
    ||| n == "swap_pane"@
    ||| n == "swap_window"@
    ||| n == "unbind_key"@
    ||| n == "unlink_window"@
    ||| n == "wait_for"@
}

fn compat_supported_exec(n: &str) -> (r: bool)
    ensures
        r == compat_supported(n@),
{
    str_eq(n, "bind_key") || str_eq(n, "break_pane") || str_eq(n, "capture_pane") || str_eq(n, "choose_buffer") || str_eq(n, "choose_client") || str_eq(n, "choose_tree") || str_eq(n, "clear_history") || str_eq(n, "clear_prompt_history") || str_eq(n, "clock_mode") || str_eq(n, "command_prompt") || str_eq(n, "confirm_before") || str_eq(n, "copy_mode") || str_eq(n, "customize_mode") || str_eq(n, "delete_buffer") || str_eq(n, "display_menu") || str_eq(n, "display_panes") || str_eq(n, "display_popup") || str_eq(n, "find_window") || str_eq(n, "if_shell") || str_eq(n, "join_pane") || str_eq(n, "link_window") || str_eq(n, "list_buffers") || str_eq(n, "list_keys") || str_eq(n, "load_buffer") || str_eq(n, "move_pane") || str_eq(n, "move_window") || str_eq(n, "next_layout") || str_eq(n, "paste_buffer") || str_eq(n, "pipe_pane") || str_eq(n, "previous_layout") || str_eq(n, "refresh_client") || str_eq(n, "resize_pane") || str_eq(n, "resize_window") || str_eq(n, "respawn_pane") || str_eq(n, "respawn_window") || str_eq(n, "rotate_window") || str_eq(n, "run_shell") || str_eq(n, "save_buffer") || str_eq(n, "select_layout") || str_eq(n, "send_prefix") || str_eq(n, "server_access") || str_eq(n, "set_buffer") || str_eq(n, "set_hook") || str_eq(n, "set_window_option") || str_eq(n, "show_buffer") || str_eq(n, "show_hooks") || str_eq(n, "show_prompt_history") || str_eq(n, "show_window_options") || str_eq(n, "source_file") || str_eq(n, "swap_pane") || str_eq(n, "swap_window") || str_eq(n, "unbind_key") || str_eq(n, "unlink_window") || str_eq(n, "wait_for")
}

/// A command that the compatibility layer handles, with its target and
/// arguments; `None` for a command it does not know.
pub open spec fn compat_fallback(cmd: Seq<char>, t: Seq<Seq<char>>) -> Option<RequestView> {
    let name = replace_char(cmd, '-', '_');
    if compat_supported(name) {
        let (target, args) = scan_extract(t, 1, None, seq![]);
        Some(RequestView::CompatCommand { name, target, args })
    } else {
        None
    }
}

/// The compatibility request for the command `tokens[0]`, if the
/// compatibility layer handles it.
pub fn parse_compat_fallback(t: &Vec<String>) -> (r: Option<Request>)
    requires
        t.len() >= 1,
    ensures
        match (r, compat_fallback(views_of(t@)[0], views_of(t@))) {
            (Some(q), Some(v)) => q@ == v,
            (None, None) => true,
            _ => false,
        },
{
    let name = replace_char_exec(t[0].as_str(), '-', '_');
    if !compat_supported_exec(name.as_str()) {
        return None;
    }
    let (target, args) = extract_target_and_args(t);
    Some(Request::CompatCommand { name, target, args })
}

/// A request from the words of a command line, or the reason there is
/// none.
pub open spec fn raw_request(t: Seq<Seq<char>>) -> Result<RequestView, Seq<char>> {
    if t.len() == 0 {
        Err("empty command"@)
    } else {
        let c = t[0];
        let rest = t.skip(1);
        if c == "new-session"@ || c == "new"@ {
            Ok(
                RequestView::CreateSession {
                    name: match scan_named(t, "-s"@, 1, None) {
                        Some(n) => n,
                        None => "default"@,
                    },
                },
            )
        } else if c == "has-session"@ || c == "has"@ {
            match scan_named(t, "-t"@, 1, None) {
                Some(name) => Ok(RequestView::HasSession { name }),
                None => Err("has-session requires a target session"@),
            }
        } else if c == "attach-session"@ || c == "attach"@ {
            Ok(RequestView::AttachSession { session: scan_session_target(t, 1) })
        } else if c == "switch-client"@ || c == "switchc"@ {
            Ok(RequestView::SwitchClient { session: scan_session_target(t, 1) })
        } else if c == "detach-client"@ || c == "detach"@ {
            Ok(RequestView::DetachClient { session: scan_session_target(t, 1) })
        } else if c == "list-clients"@ || c == "lsc"@ {
            Ok(RequestView::ListClients)
        } else if c == "lock-client"@ || c == "lockc"@ {
            Ok(RequestView::LockClient)
        } else if c == "lock-server"@ || c == "locks"@ {
            Ok(RequestView::LockServer)
        } else if c == "lock-session"@ {
            Ok(RequestView::LockSession { session: scan_session_target(t, 1) })
        } else if c == "suspend-client"@ || c == "suspendc"@ {
            Ok(RequestView::SuspendClient)
        } else if c == "display-message"@ || c == "display"@ {
            match message_of(rest) {
                Ok(message) => Ok(RequestView::DisplayMessage { message }),
                Err(e) => Err(e),
            }
        } else if c == "show-messages"@ {
            Ok(RequestView::ShowMessages)
        } else if c == "set-option"@ || c == "set"@ {
            match name_value_of(rest) {
                Some((name, value)) => Ok(RequestView::SetOption { name, value }),
                None => Err("set-option requires name and value"@),
            }
        } else if c == "show-options"@ || c == "show"@ {
            Ok(RequestView::ShowOptions { name: first_non_flag(rest) })
        } else if c == "set-environment"@ || c == "setenv"@ {
            match name_value_of(rest) {
                Some((name, value)) => Ok(RequestView::SetEnvironment { name, value }),
                None => Err("set-environment requires name and value"@),
            }
        } else if c == "show-environment"@ || c == "showenv"@ {
            Ok(RequestView::ShowEnvironment { name: first_non_flag(rest) })
        } else if c == "list-sessions"@ || c == "ls"@ {
            Ok(RequestView::ListSessions)
        } else if c == "list-commands"@ || c == "lscm"@ {
            Ok(RequestView::ListCommands)
        } else if c == "kill-server"@ {
            Ok(RequestView::KillServer)
        } else if c == "start-server"@ {
            Ok(RequestView::StartServer)
        } else if c == "kill-session"@ || c == "kill"@ {
            match scan_named(t, "-t"@, 1, None) {
                Some(name) => Ok(RequestView::KillSession { name }),
                None => Err("kill-session requires a target session"@),
            }
        } else if c == "rename-session"@ {
            match scan_rename(t, 1, None, None) {
                (Some(name), Some(new_name)) => Ok(RequestView::RenameSession { name, new_name }),
                _ => Err("rename-session requires target and new name"@),
            }
        } else if c == "new-window"@ {
            let (target, name) = scan_new_window(t, 1, None, None);
            Ok(
                RequestView::CreateWindow {
                    session: match target {
                        Some(v) => tmux_target(v).session,
                        None => None,
                    },
                    name,
                },
            )
        } else if c == "rename-window"@ {
            match scan_rename_window(t, 1, no_target(), None) {
                (p, Some(new_name)) => Ok(RequestView::RenameWindow { session: p.session, window: p.window, new_name }),
                (_, None) => Err("rename-window requires a new name"@),
            }
        } else if c == "kill-window"@ || c == "killw"@ {
            let p = scan_target(t, 1, no_target());
            Ok(RequestView::KillWindow { session: p.session, window: p.window })
        } else if c == "next-window"@ || c == "nextw"@ {
            Ok(RequestView::NextWindow { session: scan_session_target(t, 1) })
        } else if c == "previous-window"@ || c == "prevw"@ {
            Ok(RequestView::PreviousWindow { session: scan_session_target(t, 1) })
        } else if c == "last-window"@ || c == "last"@ {
            Ok(RequestView::LastWindow { session: scan_session_target(t, 1) })
        } else if c == "select-window"@ || c == "selectw"@ {
            let p = scan_target(t, 1, no_target());
            match p.window {
                Some(window) => Ok(RequestView::SelectWindow { session: p.session, window }),
                None => Err("select-window requires a window target (eg. -t session:window)"@),
            }
        } else if c == "split-window"@ || c == "splitw"@ {
            let (p, title, orientation) = scan_split(t, 1, no_target(), None, SplitOrientation::Horizontal);
            Ok(RequestView::SplitWindow { session: p.session, window: p.window, title, orientation })
        } else if c == "kill-pane"@ || c == "killp"@ {
            let p = scan_target(t, 1, no_target());
            Ok(RequestView::KillPane { session: p.session, window: p.window, pane: p.pane })
        } else if c == "select-pane"@ || c == "selectp"@ {
            let p = scan_target(t, 1, no_target());
            match p.pane {
                Some(pane) => Ok(RequestView::SelectPane { session: p.session, window: p.window, pane }),
                None => Err("select-pane requires pane target (eg. -t session:window.pane)"@),
            }
        } else if c == "last-pane"@ || c == "lastp"@ {
            let p = scan_target(t, 1, no_target());
            Ok(RequestView::LastPane { session: p.session, window: p.window })
        } else if c == "send-keys"@ {
            let (p, literal, keys) = scan_send_keys(t, 1, no_target(), false, seq![]);
            if keys.len() == 0 {
                Err("send-keys requires at least one key token"@)
            } else {
                Ok(RequestView::SendKeys { session: p.session, window: p.window, pane: p.pane, keys, literal })
            }
        } else if c == "list-windows"@ || c == "lsw"@ {
            let p = scan_target(t, 1, no_target());
            Ok(
                RequestView::ListWindows {
                    session: match p.session {
                        Some(s) => Some(s),
                        None => if p.pane is None {
                            p.window
                        } else {
                            None
                        },
                    },
                },
            )
        } else if c == "list-panes"@ || c == "lsp"@ {
            let p = scan_target(t, 1, no_target());
            Ok(RequestView::ListPanes { session: p.session, window: p.window })
        } else if c == "resize-pane"@ || c == "resizep"@ {
            let (p, direction, amount) = scan_resize(t, 1, no_target(), ResizeDir::Down, 1);
            Ok(RequestView::ResizePane { session: p.session, window: p.window, pane: p.pane, direction, amount })
        } else if c == "capture-pane"@ || c == "capturep"@ {
            let (p, lines) = scan_capture(t, 1, no_target(), None);
            Ok(RequestView::CapturePane { session: p.session, window: p.window, pane: p.pane, lines })
        } else {
            match compat_fallback(c, t) {
                Some(q) => Ok(q),
                None => Err("unsupported raw command '"@ + c + "' in dmux compatibility shim"@),
            }
        }
    }
}

fn is_cmd(t: &str, a: &str, b: &str) -> (r: bool)
    ensures
        r == (t@ == a@ || t@ == b@),
{
    str_eq(t, a) || str_eq(t, b)
}

/// Parses a raw command line (as a shell would split it into words) into a
/// request; the error says why it is not one.
pub fn parse_raw_command(command: &str) -> (r: Result<Request, String>)
    ensures
        match (r, raw_request(ws_tokens(command@))) {
            (Ok(q), Ok(v)) => q@ == v,
            (Err(e), Err(m)) => e@ == m,
            _ => false,
        },
{
    let tokens = split_ws(command);
    let ghost t = views_of(tokens@);
    if tokens.len() == 0 {
        return Err(lit("empty command"));
    }
    proof {
        assert(t.skip(1) =~= views_of(tokens@).skip(1));
    }
    let c = tokens[0].as_str();
    if is_cmd(c, "new-session", "new") {
        let name = match scan_named_exec(&tokens, "-s") {
            Some(n) => n,
            None => lit("default"),
        };
        Ok(Request::CreateSession { name })
    } else if is_cmd(c, "has-session", "has") {
        match scan_named_exec(&tokens, "-t") {
            Some(name) => Ok(Request::HasSession { name }),
            None => Err(lit("has-session requires a target session")),
        }
    } else if is_cmd(c, "attach-session", "attach") {
        Ok(Request::AttachSession { session: parse_session_target_flag(&tokens) })
    } else if is_cmd(c, "switch-client", "switchc") {
        Ok(Request::SwitchClient { session: parse_session_target_flag(&tokens) })
    } else if is_cmd(c, "detach-client", "detach") {
        Ok(Request::DetachClient { session: parse_session_target_flag(&tokens) })
    } else if is_cmd(c, "list-clients", "lsc") {
        Ok(Request::ListClients)
    } else if is_cmd(c, "lock-client", "lockc") {
        Ok(Request::LockClient)
    } else if is_cmd(c, "lock-server", "locks") {
        Ok(Request::LockServer)
    } else if str_eq(c, "lock-session") {
        Ok(Request::LockSession { session: parse_session_target_flag(&tokens) })
    } else if is_cmd(c, "suspend-client", "suspendc") {
        Ok(Request::SuspendClient)
    } else if is_cmd(c, "display-message", "display") {
        match parse_message_args(&tokens, 1) {
            Ok(message) => Ok(Request::DisplayMessage { message }),
            Err(e) => Err(e),
        }
    } else if str_eq(c, "show-messages") {
        Ok(Request::ShowMessages)
    } else if is_cmd(c, "set-option", "set") {
        parse_set_option(&tokens, 1)
    } else if is_cmd(c, "show-options", "show") {
        Ok(Request::ShowOptions { name: parse_name_arg(&tokens, 1) })
    } else if is_cmd(c, "set-environment", "setenv") {
        parse_set_environment(&tokens, 1)
    } else if is_cmd(c, "show-environment", "showenv") {
        Ok(Request::ShowEnvironment { name: parse_name_arg(&tokens, 1) })
    } else if is_cmd(c, "list-sessions", "ls") {
        Ok(Request::ListSessions)
    } else if is_cmd(c, "list-commands", "lscm") {
        Ok(Request::ListCommands)
    } else if str_eq(c, "kill-server") {
        Ok(Request::KillServer)
    } else if str_eq(c, "start-server") {
        Ok(Request::StartServer)
    } else if is_cmd(c, "kill-session", "kill") {
        match scan_named_exec(&tokens, "-t") {
            Some(name) => Ok(Request::KillSession { name }),
            None => Err(lit("kill-session requires a target session")),
        }
    } else if str_eq(c, "rename-session") {
        match scan_rename_exec(&tokens) {
            (Some(name), Some(new_name)) => Ok(Request::RenameSession { name, new_name }),
            _ => Err(lit("rename-session requires target and new name")),
        }
    } else if str_eq(c, "new-window") {
        let (target, name) = scan_new_window_exec(&tokens);
        let session = match target {
            Some(v) => parse_tmux_target(v.as_str()).session,
            None => None,
        };
        Ok(Request::CreateWindow { session, name })
    } else if str_eq(c, "rename-window") {
        match scan_rename_window_exec(&tokens) {
            (p, Some(new_name)) => Ok(Request::RenameWindow { session: p.session, window: p.window, new_name }),
            (_, None) => Err(lit("rename-window requires a new name")),
        }
    } else if is_cmd(c, "kill-window", "killw") {
        let p = parse_target_flag(&tokens);
        Ok(Request::KillWindow { session: p.session, window: p.window })
    } else if is_cmd(c, "next-window", "nextw") {
        Ok(Request::NextWindow { session: parse_session_target_flag(&tokens) })
    } else if is_cmd(c, "previous-window", "prevw") {
        Ok(Request::PreviousWindow { session: parse_session_target_flag(&tokens) })
    } else if is_cmd(c, "last-window", "last") {
        Ok(Request::LastWindow { session: parse_session_target_flag(&tokens) })
    } else if is_cmd(c, "select-window", "selectw") {
        let p = parse_target_flag(&tokens);
        match p.window {
            Some(window) => Ok(Request::SelectWindow { session: p.session, window }),
            None => Err(lit("select-window requires a window target (eg. -t session:window)")),
        }
    } else if is_cmd(c, "split-window", "splitw") {
        let (p, title, orientation) = scan_split_exec(&tokens);
        Ok(Request::SplitWindow { session: p.session, window: p.window, title, orientation })
    } else if is_cmd(c, "kill-pane", "killp") {
        let p = parse_target_flag(&tokens);
        Ok(Request::KillPane { session: p.session, window: p.window, pane: p.pane })
    } else if is_cmd(c, "select-pane", "selectp") {
        let p = parse_target_flag(&tokens);
        match p.pane {
            Some(pane) => Ok(Request::SelectPane { session: p.session, window: p.window, pane }),
            None => Err(lit("select-pane requires pane target (eg. -t session:window.pane)")),
        }
    } else if is_cmd(c, "last-pane", "lastp") {
        let p = parse_target_flag(&tokens);
        Ok(Request::LastPane { session: p.session, window: p.window })
    } else if str_eq(c, "send-keys") {
        let (p, literal, keys) = scan_send_keys_exec(&tokens);
        if keys.len() == 0 {
            return Err(lit("send-keys requires at least one key token"));
        }
        Ok(Request::SendKeys { session: p.session, window: p.window, pane: p.pane, keys, literal })
    } else if is_cmd(c, "list-windows", "lsw") {
        let p = parse_target_flag(&tokens);
        let session = match p.session {
            Some(s) => Some(s),
            None => if p.pane.is_none() {
                p.window
            } else {
                None
            },
        };
        Ok(Request::ListWindows { session })
    } else if is_cmd(c, "list-panes", "lsp") {
        let p = parse_target_flag(&tokens);
        Ok(Request::ListPanes { session: p.session, window: p.window })
    } else if is_cmd(c, "resize-pane", "resizep") {
        let (p, direction, amount) = scan_resize_exec(&tokens);
        Ok(Request::ResizePane { session: p.session, window: p.window, pane: p.pane, direction, amount })
    } else if is_cmd(c, "capture-pane", "capturep") {
        let (p, lines) = scan_capture_exec(&tokens);
        Ok(Request::CapturePane { session: p.session, window: p.window, pane: p.pane, lines })
    } else {
        match parse_compat_fallback(&tokens) {
            Some(q) => Ok(q),
            None => Err(concat3("unsupported raw command '", c, "' in dmux compatibility shim")),
        }
    }
}

} // verus!
