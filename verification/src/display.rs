//! Text for people: answers printed as lines, and terminal output cleaned of
//! escape sequences before it is shown in a listing.
use vstd::prelude::*;
use crate::text::{
    first_index, lemma_first_index_is, lemma_first_index_none, not_ws, is_ws, char_is_ws, trim,
    trim_exec, chars_of, string_of_range, str_is_empty, push_char, lit, append_str, views_of, replace_char,
    lines_of, split_lines, decimal, push_decimal,
};
use crate::proto::{
    Response, ResponseView, SessionInfo, SessionInfoView, ClientInfo, ClientInfoView, NameValue,
    NameValueView, WindowInfo, WindowInfoView, PaneInfo, PaneInfoView, SplitOrientation,
    session_infos_view, client_infos_view, name_values_view, window_infos_view, pane_infos_view,
};

verus! {

// ---------------------------------------------------------------------------
// Escape sequences
// ---------------------------------------------------------------------------

/// Where the scan of escape sequences stands.
#[derive(Clone, Copy, PartialEq, Eq, Structural)]
pub enum StripMode {
    /// Ordinary text.
    Text,
    /// Just after an escape character.
    Escape,
    /// Inside a control sequence (`ESC [`), until its final letter or `~`.
    Control,
    /// Inside an operating-system command (`ESC ]`), until BEL or `ESC \`.
    Command,
    /// Inside an operating-system command, just after an escape character.
    CommandEscape,
}

/// Whether `c` is an ASCII letter.
pub open spec fn is_ascii_alpha(c: char) -> bool {
    ('a' <= c && c <= 'z') || ('A' <= c && c <= 'Z')
}

/// Whether `c` is a control character (the Unicode category Cc).
pub open spec fn is_control(c: char) -> bool {
    (c as u32) <= 0x1f || (0x7f <= (c as u32) && (c as u32) <= 0x9f)
}

/// One character inside an operating-system command.
pub open spec fn command_step(c: char) -> StripMode {
    if c == '\u{7}' {
        StripMode::Text
    } else if c == '\u{1b}' {
        StripMode::CommandEscape
    } else {
        StripMode::Command
    }
}

/// The next mode after `c`, and whether `c` is kept.
pub open spec fn strip_step(m: StripMode, c: char) -> (StripMode, bool) {
    match m {
        StripMode::Text => if c == '\u{1b}' {
            (StripMode::Escape, false)
        } else {
            (StripMode::Text, true)
        },
        StripMode::Escape => if c == '[' {
            (StripMode::Control, false)
        } else if c == ']' {
            (StripMode::Command, false)
        } else {
            (StripMode::Text, false)
        },
        StripMode::Control => if is_ascii_alpha(c) || c == '~' {
            (StripMode::Text, false)
        } else {
            (StripMode::Control, false)
        },
        StripMode::Command => (command_step(c), false),
        StripMode::CommandEscape => if c == '\\' {
            (StripMode::Text, false)
        } else {
            (command_step(c), false)
        },
    }
}

/// The mode after scanning `s`, and the characters kept.
pub open spec fn strip_run(s: Seq<char>) -> (StripMode, Seq<char>)
    decreases s.len(),
{
    if s.len() == 0 {
        (StripMode::Text, seq![])
    } else {
        let (m, out) = strip_run(s.drop_last());
        let (m2, keep) = strip_step(m, s.last());
        (m2, if keep {
            out.push(s.last())
        } else {
            out
        })
    }
}

/// `s` without its escape sequences: control sequences up to their final
/// letter or `~`, operating-system commands up to BEL or `ESC \`, and any
/// other escape character with the character after it.
pub open spec fn strip_ansi(s: Seq<char>) -> Seq<char> {
    strip_run(s).1
}

fn strip_step_exec(m: StripMode, c: char) -> (r: (StripMode, bool))
    ensures
        r == strip_step(m, c),
{
    let to_command = if c == '\u{7}' {
        StripMode::Text
    } else if c == '\u{1b}' {
        StripMode::CommandEscape
    } else {
        StripMode::Command
    };
    match m {
        StripMode::Text => if c == '\u{1b}' {
            (StripMode::Escape, false)
        } else {
            (StripMode::Text, true)
        },
        StripMode::Escape => if c == '[' {
            (StripMode::Control, false)
        } else if c == ']' {
            (StripMode::Command, false)
        } else {
            (StripMode::Text, false)
        },
        StripMode::Control => if ('a' <= c && c <= 'z') || ('A' <= c && c <= 'Z') || c == '~' {
            (StripMode::Text, false)
        } else {
            (StripMode::Control, false)
        },
        StripMode::Command => (to_command, false),
        StripMode::CommandEscape => if c == '\\' {
            (StripMode::Text, false)
        } else {
            (to_command, false)
        },
    }
}

/// A string without its escape sequences.
pub fn strip_ansi_exec(input: &str) -> (r: String)
    ensures
        r@ == strip_ansi(input@),
{
    let chars = chars_of(input);
    let mut out = String::new();
    let mut mode = StripMode::Text;
    let mut i: usize = 0;
    while i < chars.len()
        invariant
            i <= chars.len(),
            chars@ == input@,
            (mode, out@) == strip_run(chars@.take(i as int)),
        decreases chars.len() - i,
    {
        let c = chars[i];
        let (m2, keep) = strip_step_exec(mode, c);
        if keep {
            push_char(&mut out, c);
        }
        mode = m2;
        proof {
            assert(chars@.take(i + 1).drop_last() =~= chars@.take(i as int));
        }
        i = i + 1;
    }
    proof {
        assert(chars@.take(i as int) =~= chars@);
    }
    out
}

// ---------------------------------------------------------------------------
// Lines for display
// ---------------------------------------------------------------------------

/// `s` without its trailing whitespace.
pub open spec fn trim_end(s: Seq<char>) -> Seq<char> {
    match first_index(s.reverse(), not_ws()) {
        None => seq![],
        Some(k) => s.take(s.len() - k),
    }
}

/// How many whitespace characters `s` starts with.
pub open spec fn leading_ws(s: Seq<char>) -> int {
    match first_index(s, not_ws()) {
        None => s.len() as int,
        Some(k) => k,
    }
}

/// A line without trailing whitespace, and without its indentation too
/// where that is 24 characters or more.
pub open spec fn compact_visual_line(line: Seq<char>) -> Seq<char> {
    let te = trim_end(line);
    if leading_ws(te) >= 24 {
        trim(line)
    } else {
        te
    }
}

/// A line without trailing whitespace, and without its indentation too
/// where that is 24 characters or more.
pub fn compact_visual_line_exec(line: &str) -> (r: String)
    ensures
        r@ == compact_visual_line(line@),
{
    let chars = chars_of(line);
    let ghost cs = chars@;
    let n = chars.len();
    let mut a: usize = 0;
    while a < n && char_is_ws(chars[a])
        invariant
            a <= n,
            n == chars.len(),
            cs == chars@,
            forall|j: int| 0 <= j < a ==> !not_ws()(#[trigger] cs[j]),
        decreases n - a,
    {
        a = a + 1;
    }
    if a == n {
        proof {
            lemma_first_index_none(cs, not_ws());
            let rv = cs.reverse();
            assert forall|j: int| 0 <= j < rv.len() implies !not_ws()(#[trigger] rv[j]) by {
                assert(rv[j] == cs[n - 1 - j]);
            }
            lemma_first_index_none(rv, not_ws());
            assert(trim_end(cs) =~= Seq::<char>::empty());
            lemma_first_index_none(Seq::<char>::empty(), not_ws());
        }
        return String::new();
    }
    proof {
        lemma_first_index_is(cs, not_ws(), a as int);
    }
    let mut b: usize = n;
    while b > a && char_is_ws(chars[b - 1])
        invariant
            a < n,
            a < b <= n,
            n == chars.len(),
            cs == chars@,
            !is_ws(cs[a as int]),
            forall|j: int| b <= j < n ==> !not_ws()(#[trigger] cs[j]),
        decreases b,
    {
        b = b - 1;
    }
    proof {
        let rv = cs.reverse();
        assert forall|j: int| 0 <= j < n - b implies !not_ws()(#[trigger] rv[j]) by {
            assert(rv[j] == cs[n - 1 - j]);
        }
        assert(rv[n - b] == cs[b - 1]);
        lemma_first_index_is(rv, not_ws(), n - b);
        let te = cs.take(b as int);
        assert(trim_end(cs) == te);
        assert forall|j: int| 0 <= j < a implies !not_ws()(#[trigger] te[j]) by {
            assert(te[j] == cs[j]);
        }
        assert(te[a as int] == cs[a as int]);
        lemma_first_index_is(te, not_ws(), a as int);
        assert(leading_ws(te) == a);
    }
    if a >= 24 {
        string_of_range(&chars, a, b)
    } else {
        string_of_range(&chars, 0, b)
    }
}

/// The characters that survive into a displayed line: newlines, tabs and
/// everything but control characters.
pub open spec fn displayable() -> spec_fn(char) -> bool {
    |c: char| c == '\n' || c == '\t' || !is_control(c)
}

/// The displayed text of some lines, and how many empty lines ended it:
/// each line compacted, and runs of empty lines kept as one.
pub open spec fn display_fold(ls: Seq<Seq<char>>) -> (Seq<char>, nat)
    decreases ls.len(),
{
    if ls.len() == 0 {
        (seq![], 0)
    } else {
        let (out, run) = display_fold(ls.drop_last());
        let t = compact_visual_line(ls.last());
        if t.len() == 0 {
            if run + 1 > 1 {
                (out, run + 1)
            } else {
                (out.push('\n'), run + 1)
            }
        } else {
            (out + t.push('\n'), 0)
        }
    }
}

/// `s` without its leading and trailing newlines.
pub open spec fn trim_newlines(s: Seq<char>) -> Seq<char> {
    let keep = |c: char| c != '\n';
    match first_index(s, keep) {
        None => seq![],
        Some(a) => {
            let b = s.len() - 1 - first_index(s.reverse(), keep)->0;
            s.subrange(a, b + 1)
        },
    }
}

/// Terminal output as shown in a listing: escape sequences removed, carriage
/// returns made newlines, control characters dropped, each line compacted,
/// runs of empty lines kept as one, and no newline at either end.
pub open spec fn normalize_for_display(input: Seq<char>) -> Seq<char> {
    let raw = replace_char(strip_ansi(input), '\r', '\n');
    let filtered = raw.filter(displayable());
    trim_newlines(display_fold(lines_of(filtered)).0)
}

fn filter_displayable(s: &str) -> (r: String)
    ensures
        r@ == s@.filter(displayable()),
{
    let chars = chars_of(s);
    let mut out = String::new();
    let mut i: usize = 0;
    while i < chars.len()
        invariant
            i <= chars.len(),
            chars@ == s@,
            out@ == chars@.take(i as int).filter(displayable()),
        decreases chars.len() - i,
    {
        let c = chars[i];
        let u: u32 = c as u32;
        let keep = c == '\n' || c == '\t' || !(u <= 0x1f || (0x7f <= u && u <= 0x9f));
        proof {
            reveal(Seq::filter);
            assert(keep == displayable()(c));
            assert(chars@.take(i + 1).drop_last() =~= chars@.take(i as int));
            assert(chars@.take(i + 1).last() == c);
        }
        if keep {
            push_char(&mut out, c);
        }
        i = i + 1;
    }
    proof {
        assert(chars@.take(i as int) =~= chars@);
    }
    out
}

fn trim_newlines_exec(s: &str) -> (r: String)
    ensures
        r@ == trim_newlines(s@),
{
    let keep = |c: char| c != '\n';
    let chars = chars_of(s);
    let ghost cs = chars@;
    let n = chars.len();
    let mut a: usize = 0;
    while a < n && chars[a] == '\n'
        invariant
            a <= n,
            n == chars.len(),
            cs == chars@,
            forall|j: int| 0 <= j < a ==> !(|c: char| c != '\n')(#[trigger] cs[j]),
        decreases n - a,
    {
        a = a + 1;
    }
    if a == n {
        proof {
            lemma_first_index_none(cs, |c: char| c != '\n');
        }
        return String::new();
    }
    proof {
        lemma_first_index_is(cs, |c: char| c != '\n', a as int);
    }
    let mut b: usize = n;
    while b > a && chars[b - 1] == '\n'
        invariant
            a < n,
            a < b <= n,
            n == chars.len(),
            cs == chars@,
            cs[a as int] != '\n',
            forall|j: int| b <= j < n ==> !(|c: char| c != '\n')(#[trigger] cs[j]),
        decreases b,
    {
        b = b - 1;
    }
    proof {
        let rv = cs.reverse();
        assert forall|j: int| 0 <= j < n - b implies !(|c: char| c != '\n')(#[trigger] rv[j]) by {
            assert(rv[j] == cs[n - 1 - j]);
        }
        assert(rv[n - b] == cs[b - 1]);
        lemma_first_index_is(rv, |c: char| c != '\n', n - b);
    }
    string_of_range(&chars, a, b)
}

/// Terminal output as shown in a listing.
pub fn normalize_for_display_exec(input: &str) -> (r: String)
    ensures
        r@ == normalize_for_display(input@),
{
    let stripped = strip_ansi_exec(input);
    let raw = crate::text::replace_char_exec(stripped.as_str(), '\r', '\n');
    let filtered = filter_displayable(raw.as_str());
    let ls = split_lines(filtered.as_str());
    let ghost lv = views_of(ls@);
    let mut out = String::new();
    let mut run: usize = 0;
    let ghost mut spec_run: nat = 0;
    let mut i: usize = 0;
    while i < ls.len()
        invariant
            i <= ls.len(),
            lv == views_of(ls@),
            lv == lines_of(filtered@),
            (out@, spec_run) == display_fold(lv.take(i as int)),
            run <= 2,
            run == (if spec_run > 2 { 2 } else { spec_run }),
        decreases ls.len() - i,
    {
        let t = compact_visual_line_exec(ls[i].as_str());
        proof {
            assert(lv.take(i + 1).drop_last() =~= lv.take(i as int));
            assert(lv.take(i + 1).last() == ls@[i as int]@);
        }
        if str_is_empty(t.as_str()) {
            run = if run >= 2 {
                2
            } else {
                run + 1
            };
            proof {
                spec_run = spec_run + 1;
            }
            if run <= 1 {
                push_char(&mut out, '\n');
            }
        } else {
            append_str(&mut out, t.as_str());
            push_char(&mut out, '\n');
            run = 0;
            proof {
                spec_run = 0;
                assert(out@ =~= display_fold(lv.take(i as int)).0 + t@.push('\n'));
            }
        }
        i = i + 1;
    }
    proof {
        assert(lv.take(i as int) =~= lv);
    }
    trim_newlines_exec(out.as_str())
}

// ---------------------------------------------------------------------------
// Answers as printed lines
// ---------------------------------------------------------------------------

/// `true` or `false`.
pub open spec fn bool_text(b: bool) -> Seq<char> {
    if b {
        "true"@
    } else {
        "false"@
    }
}

/// The name of a split orientation.
pub open spec fn orientation_text(o: SplitOrientation) -> Seq<char> {
    match o {
        SplitOrientation::Horizontal => "Horizontal"@,
        SplitOrientation::Vertical => "Vertical"@,
    }
}

/// A string, or nothing in its place.
pub open spec fn or_blank(o: Option<Seq<char>>) -> Seq<char> {
    match o {
        Some(s) => s,
        None => seq![],
    }
}

/// The line for one session.
pub open spec fn session_line(s: SessionInfoView) -> Seq<char> {
    "id="@ + decimal(s.id as nat) + " name="@ + s.name + " windows="@ + decimal(s.windows as nat)
        + " panes="@ + decimal(s.panes as nat)
}

/// The line for one client.
pub open spec fn client_line(c: ClientInfoView) -> Seq<char> {
    "id="@ + decimal(c.id as nat) + " name="@ + c.name + " attached="@ + or_blank(c.attached_session)
        + " locked="@ + bool_text(c.locked) + " suspended="@ + bool_text(c.suspended)
        + " server_locked="@ + bool_text(c.server_locked)
}

/// The line for one option or variable.
pub open spec fn name_value_line(v: NameValueView) -> Seq<char> {
    v.name + "="@ + v.value
}

/// The line for one window.
pub open spec fn window_line(w: WindowInfoView) -> Seq<char> {
    "session="@ + w.session_name + "("@ + decimal(w.session_id as nat) + ") window="@ + w.window_name
        + "("@ + decimal(w.window_id as nat) + ") panes="@ + decimal(w.pane_count as nat)
        + " active="@ + bool_text(w.active) + " layout="@ + orientation_text(w.layout)
}

/// Whether a displayed line holds more than whitespace.
pub open spec fn has_text() -> spec_fn(Seq<char>) -> bool {
    |l: Seq<char>| trim(l).len() > 0
}

/// The last lines of a pane's output as a listing shows them: the lines
/// displayed and not blank, of which the last one, or the last two joined
/// by ` | `.
pub open spec fn output_preview(o: Option<Seq<char>>) -> Seq<char> {
    match o {
        None => seq![],
        Some(s) => {
            let ls = lines_of(s).map_values(|l: Seq<char>| normalize_for_display(l)).filter(has_text());
            if ls.len() == 0 {
                seq![]
            } else if ls.len() == 1 {
                ls[0]
            } else {
                ls[ls.len() - 2] + " | "@ + ls[ls.len() - 1]
            }
        },
    }
}

/// The line for one pane.
pub open spec fn pane_line(p: PaneInfoView) -> Seq<char> {
    "session="@ + p.session_name + "("@ + decimal(p.session_id as nat) + ") window="@ + p.window_name
        + "("@ + decimal(p.window_id as nat) + ") pane="@ + decimal(p.pane_id as nat) + " title="@
        + p.pane_title + " active="@ + bool_text(p.active) + " last_input="@ + or_blank(p.last_input)
        + " last_output="@ + output_preview(p.last_output)
}

/// The given lines, or one line saying that there are none.
pub open spec fn lines_or(ls: Seq<Seq<char>>, none: Seq<char>) -> Seq<Seq<char>> {
    if ls.len() == 0 {
        seq![none]
    } else {
        ls
    }
}

/// The lines that print an answer; an error answer is not printed but
/// reported with its message.
pub open spec fn response_text(r: ResponseView) -> Result<Seq<Seq<char>>, Seq<char>> {
    match r {
        ResponseView::Pong => Ok(seq!["pong"@]),
        ResponseView::SessionCheck { name, exists } => Ok(
            seq!["session name="@ + name + " exists="@ + bool_text(exists)],
        ),
        ResponseView::SessionAttached { name } => Ok(seq!["attached session name="@ + name]),
        ResponseView::ClientLocked { name } => Ok(seq!["locked client name="@ + name]),
        ResponseView::ClientSuspended { name } => Ok(seq!["suspended client name="@ + name]),
        ResponseView::ServerLocked => Ok(seq!["server locked"@]),
        ResponseView::SessionLocked { name } => Ok(seq!["locked session name="@ + name]),
        ResponseView::MessageDisplayed { message } => Ok(seq![message]),
        ResponseView::Messages(v) => Ok(lines_or(v, "no messages"@)),
        ResponseView::OptionSet { name, value } => Ok(seq!["option "@ + name + "="@ + value]),
        ResponseView::Options(v) => Ok(
            lines_or(v.map_values(|x: NameValueView| name_value_line(x)), "no options"@),
        ),
        ResponseView::EnvironmentSet { name, value } => Ok(seq!["env "@ + name + "="@ + value]),
        ResponseView::Environment(v) => Ok(
            lines_or(v.map_values(|x: NameValueView| name_value_line(x)), "no environment"@),
        ),
        ResponseView::ClientSwitched { from, to } => Ok(
            seq!["switched client from="@ + or_blank(from) + " to="@ + to],
        ),
        ResponseView::ClientDetached { name } => Ok(seq!["detached session name="@ + name]),
        ResponseView::SessionCreated { id, name } => Ok(
            seq!["created session id="@ + decimal(id as nat) + " name="@ + name],
        ),
        ResponseView::SessionKilled { id, name } => Ok(
            seq!["killed session id="@ + decimal(id as nat) + " name="@ + name],
        ),
        ResponseView::SessionRenamed { id, old_name, new_name } => Ok(
            seq!["renamed session id="@ + decimal(id as nat) + " old="@ + old_name + " new="@ + new_name],
        ),
        ResponseView::WindowCreated { session, id, name } => Ok(
            seq!["created window id="@ + decimal(id as nat) + " name="@ + name + " session="@ + session],
        ),
        ResponseView::WindowRenamed { session, id, old_name, new_name } => Ok(
            seq![
                "renamed window id="@ + decimal(id as nat) + " old="@ + old_name + " new="@ + new_name
                    + " session="@ + session,
            ],
        ),
        ResponseView::WindowKilled { session, id, name } => Ok(
            seq!["killed window id="@ + decimal(id as nat) + " name="@ + name + " session="@ + session],
        ),
        ResponseView::WindowSelected { session, id, name } => Ok(
            seq!["selected window id="@ + decimal(id as nat) + " name="@ + name + " session="@ + session],
        ),
        ResponseView::PaneCreated { session, window_id, pane_id, title } => Ok(
            seq![pane_event_line("created pane id="@, session, window_id, pane_id, title)],
        ),
        ResponseView::PaneKilled { session, window_id, pane_id, title } => Ok(
            seq![pane_event_line("killed pane id="@, session, window_id, pane_id, title)],
        ),
        ResponseView::PaneSelected { session, window_id, pane_id, title } => Ok(
            seq![pane_event_line("selected pane id="@, session, window_id, pane_id, title)],
        ),
        ResponseView::KeysSent { session, window_id, pane_id, payload } => Ok(
            seq![
                "sent keys to pane id="@ + decimal(pane_id as nat) + " session="@ + session
                    + " window_id="@ + decimal(window_id as nat) + " payload="@ + payload,
            ],
        ),
        ResponseView::Sessions(v) => Ok(
            lines_or(v.map_values(|x: SessionInfoView| session_line(x)), "no sessions"@),
        ),
        ResponseView::Commands(v) => Ok(lines_or(v, "no commands"@)),
        ResponseView::Clients(v) => Ok(
            lines_or(v.map_values(|x: ClientInfoView| client_line(x)), "no clients"@),
        ),
        ResponseView::Windows(v) => Ok(
            lines_or(v.map_values(|x: WindowInfoView| window_line(x)), "no windows"@),
        ),
        ResponseView::Panes(v) => Ok(lines_or(v.map_values(|x: PaneInfoView| pane_line(x)), "no panes"@)),
        ResponseView::CommandAccepted { command } => Ok(seq!["accepted raw command: "@ + command]),
        ResponseView::PaneResized { session, window_id, pane_id, rows, cols } => Ok(
            seq![
                "resized pane session="@ + session + " window_id="@ + decimal(window_id as nat)
                    + " pane_id="@ + decimal(pane_id as nat) + " rows="@ + decimal(rows as nat)
                    + " cols="@ + decimal(cols as nat),
            ],
        ),
        ResponseView::PaneCaptured { pane_id, lines } => Ok(
            seq!["captured pane_id="@ + decimal(pane_id as nat) + " lines="@ + decimal(lines.len())]
                + lines,
        ),
        ResponseView::PaneFloated { pane_id, floating } => Ok(
            seq!["pane_id="@ + decimal(pane_id as nat) + " floating="@ + bool_text(floating)],
        ),
        ResponseView::Error { message } => Err(message),
    }
}

/// The line for a pane that was created, killed or selected.
pub open spec fn pane_event_line(
    head: Seq<char>,
    session: Seq<char>,
    window_id: u64,
    pane_id: u64,
    title: Seq<char>,
) -> Seq<char> {
    head + decimal(pane_id as nat) + " title="@ + title + " session="@ + session + " window_id="@
        + decimal(window_id as nat)
}

fn push_bool(s: &mut String, b: bool)
    ensures
        final(s)@ == old(s)@ + bool_text(b),
{
    if b {
        append_str(s, "true");
    } else {
        append_str(s, "false");
    }
}

fn push_opt(s: &mut String, o: &Option<String>)
    ensures
        final(s)@ == old(s)@ + or_blank(o.deep_view()),
{
    match o {
        Some(t) => append_str(s, t.as_str()),
        None => {
            proof {
                assert(old(s)@ + Seq::<char>::empty() =~= old(s)@);
            }
        },
    }
}

fn session_line_exec(x: &SessionInfo) -> (r: String)
    ensures
        r@ == session_line(x@),
{
    let mut s = lit("id=");
    push_decimal(&mut s, x.id);
    append_str(&mut s, " name=");
    append_str(&mut s, x.name.as_str());
    append_str(&mut s, " windows=");
    push_decimal(&mut s, x.windows as u64);
    append_str(&mut s, " panes=");
    push_decimal(&mut s, x.panes as u64);
    s
}

fn client_line_exec(x: &ClientInfo) -> (r: String)
    ensures
        r@ == client_line(x@),
{
    let mut s = lit("id=");
    push_decimal(&mut s, x.id);
    append_str(&mut s, " name=");
    append_str(&mut s, x.name.as_str());
    append_str(&mut s, " attached=");
    push_opt(&mut s, &x.attached_session);
    append_str(&mut s, " locked=");
    push_bool(&mut s, x.locked);
    append_str(&mut s, " suspended=");
    push_bool(&mut s, x.suspended);
    append_str(&mut s, " server_locked=");
    push_bool(&mut s, x.server_locked);
    s
}

fn name_value_line_exec(x: &NameValue) -> (r: String)
    ensures
        r@ == name_value_line(x@),
{
    let mut s = lit("");
    proof {
        reveal_strlit("");
    }
    append_str(&mut s, x.name.as_str());
    append_str(&mut s, "=");
    append_str(&mut s, x.value.as_str());
    proof {
        assert(s@ =~= name_value_line(x@));
    }
    s
}

fn window_line_exec(x: &WindowInfo) -> (r: String)
    ensures
        r@ == window_line(x@),
{
    let mut s = lit("session=");
    append_str(&mut s, x.session_name.as_str());
    append_str(&mut s, "(");
    push_decimal(&mut s, x.session_id);
    append_str(&mut s, ") window=");
    append_str(&mut s, x.window_name.as_str());
    append_str(&mut s, "(");
    push_decimal(&mut s, x.window_id);
    append_str(&mut s, ") panes=");
    push_decimal(&mut s, x.pane_count as u64);
    append_str(&mut s, " active=");
    push_bool(&mut s, x.active);
    append_str(&mut s, " layout=");
    match x.layout {
        SplitOrientation::Horizontal => append_str(&mut s, "Horizontal"),
        SplitOrientation::Vertical => append_str(&mut s, "Vertical"),
    }
    s
}

fn preview_exec(o: &Option<String>) -> (r: String)
    ensures
        r@ == output_preview(o.deep_view()),
{
    match o {
        None => String::new(),
        Some(s) => {
            let ls = split_lines(s.as_str());
            let ghost lv = views_of(ls@);
            let ghost mapped = lv.map_values(|l: Seq<char>| normalize_for_display(l));
            let mut kept: Vec<String> = Vec::new();
            let mut i: usize = 0;
            while i < ls.len()
                invariant
                    i <= ls.len(),
                    lv == views_of(ls@),
                    lv == lines_of(s@),
                    mapped == lv.map_values(|l: Seq<char>| normalize_for_display(l)),
                    views_of(kept@) == mapped.take(i as int).filter(has_text()),
                decreases ls.len() - i,
            {
                let n = normalize_for_display_exec(ls[i].as_str());
                let t = trim_exec(n.as_str());
                let ghost before = views_of(kept@);
                proof {
                    assert(lv[i as int] == ls@[i as int]@);
                    assert(n@ == mapped[i as int]);
                    assert(has_text()(mapped[i as int]) == (t@.len() > 0));
                }
                if !str_is_empty(t.as_str()) {
                    kept.push(n);
                    proof {
                        assert(views_of(kept@) =~= before.push(mapped[i as int]));
                    }
                }
                proof {
                    reveal(Seq::filter);
                    assert(mapped.take(i + 1).drop_last() =~= mapped.take(i as int));
                    assert(mapped.take(i + 1).last() == mapped[i as int]);
                }
                i = i + 1;
            }
            proof {
                assert(mapped.take(i as int) =~= mapped);
            }
            let k = kept.len();
            if k == 0 {
                String::new()
            } else if k == 1 {
                kept[0].clone()
            } else {
                let mut r = kept[k - 2].clone();
                append_str(&mut r, " | ");
                append_str(&mut r, kept[k - 1].as_str());
                r
            }
        },
    }
}

fn pane_line_exec(x: &PaneInfo) -> (r: String)
    ensures
        r@ == pane_line(x@),
{
    let mut s = lit("session=");
    append_str(&mut s, x.session_name.as_str());
    append_str(&mut s, "(");
    push_decimal(&mut s, x.session_id);
    append_str(&mut s, ") window=");
    append_str(&mut s, x.window_name.as_str());
    append_str(&mut s, "(");
    push_decimal(&mut s, x.window_id);
    append_str(&mut s, ") pane=");
    push_decimal(&mut s, x.pane_id);
    append_str(&mut s, " title=");
    append_str(&mut s, x.pane_title.as_str());
    append_str(&mut s, " active=");
    push_bool(&mut s, x.active);
    append_str(&mut s, " last_input=");
    push_opt(&mut s, &x.last_input);
    append_str(&mut s, " last_output=");
    let p = preview_exec(&x.last_output);
    append_str(&mut s, p.as_str());
    s
}

fn pane_event_line_exec(head: &str, session: &String, window_id: u64, pane_id: u64, title: &String) -> (r: String)
    ensures
        r@ == pane_event_line(head@, session@, window_id, pane_id, title@),
{
    let mut s = lit(head);
    push_decimal(&mut s, pane_id);
    append_str(&mut s, " title=");
    append_str(&mut s, title.as_str());
    append_str(&mut s, " session=");
    append_str(&mut s, session.as_str());
    append_str(&mut s, " window_id=");
    push_decimal(&mut s, window_id);
    s
}

fn one_line(s: String) -> (r: Vec<String>)
    ensures
        views_of(r@) == seq![s@],
{
    let mut v: Vec<String> = Vec::new();
    v.push(s);
    proof {
        assert(views_of(v@) =~= seq![s@]);
    }
    v
}

fn lines_or_exec(v: Vec<String>, none: &str) -> (r: Vec<String>)
    ensures
        views_of(r@) == lines_or(views_of(v@), none@),
{
    if v.len() == 0 {
        one_line(lit(none))
    } else {
        v
    }
}

fn clone_lines(v: &Vec<String>) -> (r: Vec<String>)
    ensures
        views_of(r@) == views_of(v@),
{
    let mut out: Vec<String> = Vec::new();
    let mut i: usize = 0;
    while i < v.len()
        invariant
            i <= v.len(),
            views_of(out@) == views_of(v@).take(i as int),
        decreases v.len() - i,
    {
        let ghost prev = views_of(out@);
        out.push(v[i].clone());
        proof {
            assert(views_of(out@) =~= prev.push(views_of(v@)[i as int]));
            assert(views_of(v@).take(i + 1) =~= views_of(v@).take(i as int).push(views_of(v@)[i as int]));
        }
        i = i + 1;
    }
    proof {
        assert(views_of(v@).take(i as int) =~= views_of(v@));
    }
    out
}

fn session_lines(v: &Vec<SessionInfo>) -> (r: Vec<String>)
    ensures
        views_of(r@) == session_infos_view(v@).map_values(|x: SessionInfoView| session_line(x)),
{
    let ghost want = session_infos_view(v@).map_values(|x: SessionInfoView| session_line(x));
    let mut out: Vec<String> = Vec::new();
    let mut i: usize = 0;
    while i < v.len()
        invariant
            i <= v.len(),
            want == session_infos_view(v@).map_values(|x: SessionInfoView| session_line(x)),
            views_of(out@) == want.take(i as int),
        decreases v.len() - i,
    {
        let ghost prev = views_of(out@);
        out.push(session_line_exec(&v[i]));
        proof {
            assert(views_of(out@) =~= prev.push(want[i as int]));
            assert(want.take(i + 1) =~= want.take(i as int).push(want[i as int]));
        }
        i = i + 1;
    }
    proof {
        assert(want.take(i as int) =~= want);
    }
    out
}

fn client_lines(v: &Vec<ClientInfo>) -> (r: Vec<String>)
    ensures
        views_of(r@) == client_infos_view(v@).map_values(|x: ClientInfoView| client_line(x)),
{
    let ghost want = client_infos_view(v@).map_values(|x: ClientInfoView| client_line(x));
    let mut out: Vec<String> = Vec::new();
    let mut i: usize = 0;
    while i < v.len()
        invariant
            i <= v.len(),
            want == client_infos_view(v@).map_values(|x: ClientInfoView| client_line(x)),
            views_of(out@) == want.take(i as int),
        decreases v.len() - i,
    {
        let ghost prev = views_of(out@);
        out.push(client_line_exec(&v[i]));
        proof {
            assert(views_of(out@) =~= prev.push(want[i as int]));
            assert(want.take(i + 1) =~= want.take(i as int).push(want[i as int]));
        }
        i = i + 1;
    }
    proof {
        assert(want.take(i as int) =~= want);
    }
    out
}

fn name_value_lines(v: &Vec<NameValue>) -> (r: Vec<String>)
    ensures
        views_of(r@) == name_values_view(v@).map_values(|x: NameValueView| name_value_line(x)),
{
    let ghost want = name_values_view(v@).map_values(|x: NameValueView| name_value_line(x));
    let mut out: Vec<String> = Vec::new();
    let mut i: usize = 0;
    while i < v.len()
        invariant
            i <= v.len(),
            want == name_values_view(v@).map_values(|x: NameValueView| name_value_line(x)),
            views_of(out@) == want.take(i as int),
        decreases v.len() - i,
    {
        let ghost prev = views_of(out@);
        out.push(name_value_line_exec(&v[i]));
        proof {
            assert(views_of(out@) =~= prev.push(want[i as int]));
            assert(want.take(i + 1) =~= want.take(i as int).push(want[i as int]));
        }
        i = i + 1;
    }
    proof {
        assert(want.take(i as int) =~= want);
    }
    out
}

fn window_lines(v: &Vec<WindowInfo>) -> (r: Vec<String>)
    ensures
        views_of(r@) == window_infos_view(v@).map_values(|x: WindowInfoView| window_line(x)),
{
    let ghost want = window_infos_view(v@).map_values(|x: WindowInfoView| window_line(x));
    let mut out: Vec<String> = Vec::new();
    let mut i: usize = 0;
    while i < v.len()
        invariant
            i <= v.len(),
            want == window_infos_view(v@).map_values(|x: WindowInfoView| window_line(x)),
            views_of(out@) == want.take(i as int),
        decreases v.len() - i,
    {
        let ghost prev = views_of(out@);
        out.push(window_line_exec(&v[i]));
        proof {
            assert(views_of(out@) =~= prev.push(want[i as int]));
            assert(want.take(i + 1) =~= want.take(i as int).push(want[i as int]));
        }
        i = i + 1;
    }
    proof {
        assert(want.take(i as int) =~= want);
    }
    out
}

fn pane_lines(v: &Vec<PaneInfo>) -> (r: Vec<String>)
    ensures
        views_of(r@) == pane_infos_view(v@).map_values(|x: PaneInfoView| pane_line(x)),
{
    let ghost want = pane_infos_view(v@).map_values(|x: PaneInfoView| pane_line(x));
    let mut out: Vec<String> = Vec::new();
    let mut i: usize = 0;
    while i < v.len()
        invariant
            i <= v.len(),
            want == pane_infos_view(v@).map_values(|x: PaneInfoView| pane_line(x)),
            views_of(out@) == want.take(i as int),
        decreases v.len() - i,
    {
        let ghost prev = views_of(out@);
        out.push(pane_line_exec(&v[i]));
        proof {
            assert(views_of(out@) =~= prev.push(want[i as int]));
            assert(want.take(i + 1) =~= want.take(i as int).push(want[i as int]));
        }
        i = i + 1;
    }
    proof {
        assert(want.take(i as int) =~= want);
    }
    out
}

/// The lines that print an answer, or the message of an error answer.
pub fn response_text_exec(r: &Response) -> (out: Result<Vec<String>, String>)
    ensures
        match (out, response_text(r@)) {
            (Ok(v), Ok(w)) => views_of(v@) == w,
            (Err(m), Err(w)) => m@ == w,
            _ => false,
        },
{
    match r {
        Response::Messages(v) => Ok(lines_or_exec(clone_lines(v), "no messages")),
        Response::Options(v) => Ok(lines_or_exec(name_value_lines(v), "no options")),
        Response::Environment(v) => Ok(lines_or_exec(name_value_lines(v), "no environment")),
        Response::Sessions(v) => Ok(lines_or_exec(session_lines(v), "no sessions")),
        Response::Commands(v) => Ok(lines_or_exec(clone_lines(v), "no commands")),
        Response::Clients(v) => Ok(lines_or_exec(client_lines(v), "no clients")),
        Response::Windows(v) => Ok(lines_or_exec(window_lines(v), "no windows")),
        Response::Panes(v) => Ok(lines_or_exec(pane_lines(v), "no panes")),
        Response::PaneCaptured { pane_id, lines } => {
            let mut head = lit("captured pane_id=");
            push_decimal(&mut head, *pane_id);
            append_str(&mut head, " lines=");
            push_decimal(&mut head, lines.len() as u64);
            let mut out = one_line(head);
            let mut i: usize = 0;
            let ghost first = views_of(out@);
            while i < lines.len()
                invariant
                    i <= lines.len(),
                    first.len() == 1,
                    views_of(out@) == first + views_of(lines@).take(i as int),
                decreases lines.len() - i,
            {
                let ghost prev = views_of(out@);
                out.push(lines[i].clone());
                proof {
                    assert(views_of(out@) =~= prev.push(views_of(lines@)[i as int]));
                    assert(views_of(lines@).take(i + 1) =~= views_of(lines@).take(i as int).push(
                        views_of(lines@)[i as int],
                    ));
                }
                i = i + 1;
            }
            proof {
                assert(views_of(lines@).take(i as int) =~= views_of(lines@));
            }
            Ok(out)
        },
        Response::Error { message } => Err(message.clone()),
        _ => Ok(one_line(single_line(r))),
    }
}

fn single_line(r: &Response) -> (s: String)
    requires
        !(r@ is Messages || r@ is Options || r@ is Environment || r@ is Sessions || r@ is Commands
            || r@ is Clients || r@ is Windows || r@ is Panes || r@ is PaneCaptured || r@ is Error),
    ensures
        response_text(r@) == Ok::<Seq<Seq<char>>, Seq<char>>(seq![s@]),
{
    let ghost want = response_text(r@)->Ok_0[0];
    let s = match r {
        Response::Pong => lit("pong"),
        Response::SessionCheck { name, exists } => {
            let mut s = lit("session name=");
            append_str(&mut s, name.as_str());
            append_str(&mut s, " exists=");
            push_bool(&mut s, *exists);
            s
        },
        Response::SessionAttached { name } => concat_lit("attached session name=", name),
        Response::ClientLocked { name } => concat_lit("locked client name=", name),
        Response::ClientSuspended { name } => concat_lit("suspended client name=", name),
        Response::ServerLocked => lit("server locked"),
        Response::SessionLocked { name } => concat_lit("locked session name=", name),
        Response::MessageDisplayed { message } => message.clone(),
        Response::OptionSet { name, value } => {
            let mut s = concat_lit("option ", name);
            append_str(&mut s, "=");
            append_str(&mut s, value.as_str());
            s
        },
        Response::EnvironmentSet { name, value } => {
            let mut s = concat_lit("env ", name);
            append_str(&mut s, "=");
            append_str(&mut s, value.as_str());
            s
        },
        Response::ClientSwitched { from, to } => {
            let mut s = lit("switched client from=");
            push_opt(&mut s, from);
            append_str(&mut s, " to=");
            append_str(&mut s, to.as_str());
            s
        },
        Response::ClientDetached { name } => concat_lit("detached session name=", name),
        Response::SessionCreated { id, name } => {
            let mut s = lit("created session id=");
            push_decimal(&mut s, *id);
            append_str(&mut s, " name=");
            append_str(&mut s, name.as_str());
            s
        },
        Response::SessionKilled { id, name } => {
            let mut s = lit("killed session id=");
            push_decimal(&mut s, *id);
            append_str(&mut s, " name=");
            append_str(&mut s, name.as_str());
            s
        },
        Response::SessionRenamed { id, old_name, new_name } => {
            let mut s = lit("renamed session id=");
            push_decimal(&mut s, *id);
            append_str(&mut s, " old=");
            append_str(&mut s, old_name.as_str());
            append_str(&mut s, " new=");
            append_str(&mut s, new_name.as_str());
            s
        },
        Response::WindowCreated { session, id, name } => window_event_line("created window id=", *id, name, session),
        Response::WindowRenamed { session, id, old_name, new_name } => {
            let mut s = lit("renamed window id=");
            push_decimal(&mut s, *id);
            append_str(&mut s, " old=");
            append_str(&mut s, old_name.as_str());
            append_str(&mut s, " new=");
            append_str(&mut s, new_name.as_str());
            append_str(&mut s, " session=");
            append_str(&mut s, session.as_str());
            s
        },
        Response::WindowKilled { session, id, name } => window_event_line("killed window id=", *id, name, session),
        Response::WindowSelected { session, id, name } => window_event_line("selected window id=", *id, name, session),
        Response::PaneCreated { session, window_id, pane_id, title } => pane_event_line_exec(
            "created pane id=",
            session,
            *window_id,
            *pane_id,
            title,
        ),
        Response::PaneKilled { session, window_id, pane_id, title } => pane_event_line_exec(
            "killed pane id=",
            session,
            *window_id,
            *pane_id,
            title,
        ),
        Response::PaneSelected { session, window_id, pane_id, title } => pane_event_line_exec(
            "selected pane id=",
            session,
            *window_id,
            *pane_id,
            title,
        ),
        Response::KeysSent { session, window_id, pane_id, payload } => {
            let mut s = lit("sent keys to pane id=");
            push_decimal(&mut s, *pane_id);
            append_str(&mut s, " session=");
            append_str(&mut s, session.as_str());
            append_str(&mut s, " window_id=");
            push_decimal(&mut s, *window_id);
            append_str(&mut s, " payload=");
            append_str(&mut s, payload.as_str());
            s
        },
        Response::CommandAccepted { command } => concat_lit("accepted raw command: ", command),
        Response::PaneResized { session, window_id, pane_id, rows, cols } => {
            let mut s = lit("resized pane session=");
            append_str(&mut s, session.as_str());
            append_str(&mut s, " window_id=");
            push_decimal(&mut s, *window_id);
            append_str(&mut s, " pane_id=");
            push_decimal(&mut s, *pane_id);
            append_str(&mut s, " rows=");
            push_decimal(&mut s, *rows as u64);
            append_str(&mut s, " cols=");
            push_decimal(&mut s, *cols as u64);
            s
        },
        Response::PaneFloated { pane_id, floating } => {
            let mut s = lit("pane_id=");
            push_decimal(&mut s, *pane_id);
            append_str(&mut s, " floating=");
            push_bool(&mut s, *floating);
            s
        },
        _ => String::new(),
    };
    proof {
        assert(s@ =~= want);
        assert(seq![s@] =~= response_text(r@)->Ok_0);
    }
    s
}

fn concat_lit(head: &str, tail: &String) -> (r: String)
    ensures
        r@ == head@ + tail@,
{
    let mut s = lit(head);
    append_str(&mut s, tail.as_str());
    s
}

fn window_event_line(head: &str, id: u64, name: &String, session: &String) -> (r: String)
    ensures
        r@ == head@ + decimal(id as nat) + " name="@ + name@ + " session="@ + session@,
{
    let mut s = lit(head);
    push_decimal(&mut s, id);
    append_str(&mut s, " name=");
    append_str(&mut s, name.as_str());
    append_str(&mut s, " session=");
    append_str(&mut s, session.as_str());
    s
}

} // verus!
