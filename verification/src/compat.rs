//! The commands kept for compatibility: key bindings, buffers, hooks and
//! window options kept as plain tables, a prompt history, wait tokens, and
//! the layout, pane and shell commands that reach the server state or the
//! runtime.
use vstd::prelude::*;
use crate::text::{
    views_of, join_with, join_strings, replace_char, replace_char_exec, str_eq, owned, lit,
    concat2, concat3, append_str, parse_unsigned, parse_u16, parse_u64, decimal, usize_to_string,
    u64_to_string, contains_sub, contains_str, first_index, lemma_first_index, lemma_first_index_is,
    lemma_first_index_none,
};
use crate::tables::{
    strings_view, names_insert, names_remove, names_contains, names_add, names_drop, table_view,
    table_lookup, table_insert, table_remove, table_set, table_get, table_delete, clone_strings,
};
use crate::layout::{PresetLayout, preset_from_name, preset_name};
use crate::command::{ParsedTarget, TargetView, tmux_target, no_target, parse_tmux_target, is_flag, starts_with_dash};
use crate::state::{
    ServerState, StateView, SessionView, WindowView, PaneView, StateErrorView, error_text, res,
    server_fits, lemma_fits_targets, spec_resize_window, spec_swap_panes, spec_rotate_window,
    spec_break_pane, spec_join_pane, pane_command, sel_target, clear_io, clear_output,
    spec_apply_layout, spec_cycle_layout, sel_sessions, pane_records, PaneRecordView,
    pane_records_view, window_with_id, panes_view,
};
use crate::proto::{Response, ResponseView};
use crate::effects::{Effect, EffectView, Pending, PendingView, Step, StepView};

verus! {

// ---------------------------------------------------------------------------
// The compatibility tables
// ---------------------------------------------------------------------------

/// What the compatibility commands keep.
#[derive(Debug)]
pub struct CompatState {
    key_bindings: Vec<(String, String)>,
    buffers: Vec<(String, String)>,
    hooks: Vec<(String, String)>,
    window_options: Vec<(String, String)>,
    wait_tokens: Vec<String>,
    prompt_history: Vec<String>,
}

/// What the compatibility tables hold.
pub struct CompatView {
    pub key_bindings: Seq<(Seq<char>, Seq<char>)>,
    pub buffers: Seq<(Seq<char>, Seq<char>)>,
    pub hooks: Seq<(Seq<char>, Seq<char>)>,
    pub window_options: Seq<(Seq<char>, Seq<char>)>,
    pub wait_tokens: Seq<Seq<char>>,
    pub prompt_history: Seq<Seq<char>>,
}

impl View for CompatState {
    type V = CompatView;

    closed spec fn view(&self) -> CompatView {
        CompatView {
            key_bindings: table_view(self.key_bindings@),
            buffers: table_view(self.buffers@),
            hooks: table_view(self.hooks@),
            window_options: table_view(self.window_options@),
            wait_tokens: strings_view(self.wait_tokens@),
            prompt_history: strings_view(self.prompt_history@),
        }
    }
}

/// Empty compatibility tables.
pub open spec fn empty_compat() -> CompatView {
    CompatView {
        key_bindings: seq![],
        buffers: seq![],
        hooks: seq![],
        window_options: seq![],
        wait_tokens: seq![],
        prompt_history: seq![],
    }
}

/// The compatibility tables with the command `rendered` recorded.
pub open spec fn recorded(c: CompatView, rendered: Seq<char>) -> CompatView {
    CompatView { prompt_history: c.prompt_history.push(rendered), ..c }
}

impl CompatState {
    /// Empty tables.
    pub fn new() -> (r: Self)
        ensures
            r@ == empty_compat(),
    {
        let r = CompatState {
            key_bindings: Vec::new(),
            buffers: Vec::new(),
            hooks: Vec::new(),
            window_options: Vec::new(),
            wait_tokens: Vec::new(),
            prompt_history: Vec::new(),
        };
        proof {
            assert(r@.key_bindings =~= Seq::<(Seq<char>, Seq<char>)>::empty());
            assert(r@.buffers =~= Seq::<(Seq<char>, Seq<char>)>::empty());
            assert(r@.hooks =~= Seq::<(Seq<char>, Seq<char>)>::empty());
            assert(r@.window_options =~= Seq::<(Seq<char>, Seq<char>)>::empty());
            assert(r@.wait_tokens =~= Seq::<Seq<char>>::empty());
            assert(r@.prompt_history =~= Seq::<Seq<char>>::empty());
        }
        r
    }

    /// Records a command in the prompt history.
    pub fn record(&mut self, rendered: String)
        ensures
            final(self)@ == recorded(old(self)@, rendered@),
    {
        self.prompt_history.push(rendered);
        proof {
            assert(self@.prompt_history =~= old(self)@.prompt_history.push(rendered@));
        }
    }
}

// ---------------------------------------------------------------------------
// Arguments
// ---------------------------------------------------------------------------

/// How a compatibility command is echoed back: its words joined by dashes,
/// its target and its arguments.
pub open spec fn compat_text(name: Seq<char>, target: Option<Seq<char>>, args: Seq<Seq<char>>) -> Seq<char> {
    replace_char(name, '_', '-') + match target {
        Some(t) => " -t "@ + t,
        None => seq![],
    } + if args.len() > 0 {
        " "@ + join_with(args, " "@)
    } else {
        seq![]
    }
}

/// How a compatibility command is echoed back.
pub fn compat_command_text(name: &str, target: Option<&str>, args: &Vec<String>) -> (r: String)
    ensures
        r@ == compat_text(name@, crate::text::opt_view(target), views_of(args@)),
{
    let mut msg = replace_char_exec(name, '_', '-');
    if let Some(t) = target {
        append_str(&mut msg, " -t ");
        append_str(&mut msg, t);
    }
    if args.len() > 0 {
        append_str(&mut msg, " ");
        let joined = join_strings(args.as_slice(), " ");
        append_str(&mut msg, joined.as_str());
    }
    proof {
        assert(msg@ =~= compat_text(name@, crate::text::opt_view(target), views_of(args@)));
    }
    msg
}

/// The word after the first `flag` that has one.
pub open spec fn flag_value_from(args: Seq<Seq<char>>, flag: Seq<char>, i: int) -> Option<Seq<char>>
    decreases args.len() - i,
{
    if i < 0 || i + 1 >= args.len() {
        None
    } else if args[i] == flag {
        Some(args[i + 1])
    } else {
        flag_value_from(args, flag, i + 1)
    }
}

/// The word after the first `flag` that has one.
pub fn compat_flag_value(args: &Vec<String>, flag: &str) -> (r: Option<String>)
    ensures
        r.deep_view() == flag_value_from(views_of(args@), flag@, 0),
{
    let ghost av = views_of(args@);
    let mut i: usize = 0;
    while i < args.len()
        invariant
            i <= args.len(),
            av == views_of(args@),
            flag_value_from(av, flag@, 0) == flag_value_from(av, flag@, i as int),
        decreases args.len() - i,
    {
        if i + 1 >= args.len() {
            return None;
        }
        if str_eq(args[i].as_str(), flag) {
            return Some(args[i + 1].clone());
        }
        i = i + 1;
    }
    None
}

/// Whether `flag` is among the arguments.
pub fn compat_has_flag(args: &Vec<String>, flag: &str) -> (r: bool)
    ensures
        r == views_of(args@).contains(flag@),
{
    let ghost av = views_of(args@);
    let mut i: usize = 0;
    while i < args.len()
        invariant
            i <= args.len(),
            av == views_of(args@),
            forall|j: int| 0 <= j < i ==> av[j] != flag@,
        decreases args.len() - i,
    {
        if str_eq(args[i].as_str(), flag) {
            assert(av[i as int] == flag@);
            return true;
        }
        i = i + 1;
    }
    false
}

/// The number after the first `flag`, when it is one.
pub open spec fn flag_u16(args: Seq<Seq<char>>, flag: Seq<char>) -> Option<u16> {
    match flag_value_from(args, flag, 0) {
        Some(v) => match parse_unsigned(v, u16::MAX as nat) {
            Some(n) => Some(n as u16),
            None => None,
        },
        None => None,
    }
}

/// The number after the first `flag`, when it is one.
pub fn compat_flag_u16(args: &Vec<String>, flag: &str) -> (r: Option<u16>)
    ensures
        r == flag_u16(views_of(args@), flag@),
{
    match compat_flag_value(args, flag) {
        Some(v) => parse_u16(v.as_str()),
        None => None,
    }
}

/// The arguments that are numbers, in order.
pub open spec fn number_args(args: Seq<Seq<char>>) -> Seq<u16>
    decreases args.len(),
{
    if args.len() == 0 {
        seq![]
    } else {
        number_args(args.drop_last()) + match parse_unsigned(args.last(), u16::MAX as nat) {
            Some(n) => seq![n as u16],
            None => seq![],
        }
    }
}

fn number_args_exec(args: &Vec<String>) -> (r: Vec<u16>)
    ensures
        r@ == number_args(views_of(args@)),
{
    let ghost av = views_of(args@);
    let mut out: Vec<u16> = Vec::new();
    let mut i: usize = 0;
    while i < args.len()
        invariant
            i <= args.len(),
            av == views_of(args@),
            out@ == number_args(av.take(i as int)),
        decreases args.len() - i,
    {
        proof {
            assert(av.take(i + 1).drop_last() =~= av.take(i as int));
        }
        if let Some(n) = parse_u16(args[i].as_str()) {
            out.push(n);
        }
        proof {
            assert(out@ =~= number_args(av.take(i + 1)));
        }
        i = i + 1;
    }
    proof {
        assert(av.take(i as int) =~= av);
    }
    out
}

/// The size `resize-window` asks for: `-x` columns and `-y` rows, else the
/// first and second number among the arguments, else 120 by 40; at least
/// one of each.
pub open spec fn window_size_args(args: Seq<Seq<char>>) -> (u16, u16) {
    let nums = number_args(args);
    let cols = match flag_u16(args, "-x"@) {
        Some(c) => c,
        None => if nums.len() > 0 {
            nums[0]
        } else {
            120
        },
    };
    let rows = match flag_u16(args, "-y"@) {
        Some(r) => r,
        None => if nums.len() > 1 {
            nums[1]
        } else {
            40
        },
    };
    (if rows == 0 { 1 } else { rows }, if cols == 0 { 1 } else { cols })
}

/// The target that a compatibility command's `-t` names, or none.
pub open spec fn opt_target(target: Option<Seq<char>>) -> TargetView {
    match target {
        Some(t) => tmux_target(t),
        None => no_target(),
    }
}

fn parse_opt_target(target: &Option<String>) -> (r: ParsedTarget)
    ensures
        r@ == opt_target(target.deep_view()),
{
    match target {
        Some(t) => parse_tmux_target(t.as_str()),
        None => ParsedTarget { session: None, window: None, pane: None },
    }
}

// ---------------------------------------------------------------------------
// Listings
// ---------------------------------------------------------------------------

/// The size of a string in bytes of UTF-8, as `str::len` gives it.
pub open spec fn byte_len(s: Seq<char>) -> nat {
    (vstd::utf8::encode_utf8(s).len() as usize) as nat
}

/// `name:size` lines of the buffers, the size in bytes of UTF-8.
pub open spec fn size_lines(t: Seq<(Seq<char>, Seq<char>)>) -> Seq<Seq<char>> {
    t.map_values(|e: (Seq<char>, Seq<char>)| e.0 + ":"@ + decimal(byte_len(e.1)))
}

/// The entries of a table, each name and value joined by `sep`.
pub open spec fn joined_lines(t: Seq<(Seq<char>, Seq<char>)>, sep: Seq<char>) -> Seq<Seq<char>> {
    t.map_values(|e: (Seq<char>, Seq<char>)| e.0 + sep + e.1)
}

fn joined_lines_exec(t: &Vec<(String, String)>, sep: &str) -> (r: Vec<String>)
    ensures
        views_of(r@) == joined_lines(table_view(t@), sep@),
{
    let ghost tv = table_view(t@);
    let mut out: Vec<String> = Vec::new();
    let mut i: usize = 0;
    while i < t.len()
        invariant
            i <= t.len(),
            tv == table_view(t@),
            views_of(out@) == joined_lines(tv, sep@).take(i as int),
        decreases t.len() - i,
    {
        let line = concat3(t[i].0.as_str(), sep, t[i].1.as_str());
        let ghost prev = views_of(out@);
        out.push(line);
        proof {
            let all = joined_lines(tv, sep@);
            assert(views_of(out@) =~= prev.push(all[i as int]));
            assert(all.take(i + 1) =~= all.take(i as int).push(all[i as int]));
        }
        i = i + 1;
    }
    proof {
        assert(joined_lines(tv, sep@).take(i as int) =~= joined_lines(tv, sep@));
    }
    out
}

fn size_lines_exec(t: &Vec<(String, String)>) -> (r: Vec<String>)
    ensures
        views_of(r@) == size_lines(table_view(t@)),
{
    let ghost tv = table_view(t@);
    let mut out: Vec<String> = Vec::new();
    let mut i: usize = 0;
    while i < t.len()
        invariant
            i <= t.len(),
            tv == table_view(t@),
            views_of(out@) == size_lines(tv).take(i as int),
        decreases t.len() - i,
    {
        let n = t[i].1.as_str().len();
        let line = concat3(t[i].0.as_str(), ":", usize_to_string(n).as_str());
        let ghost prev = views_of(out@);
        out.push(line);
        proof {
            let all = size_lines(tv);
            assert(views_of(out@) =~= prev.push(all[i as int]));
            assert(all.take(i + 1) =~= all.take(i as int).push(all[i as int]));
        }
        i = i + 1;
    }
    proof {
        assert(size_lines(tv).take(i as int) =~= size_lines(tv));
    }
    out
}

// ---------------------------------------------------------------------------
// The table commands
// ---------------------------------------------------------------------------

/// An answer that accepts a command.
pub open spec fn accepted(m: Seq<char>) -> StepView {
    StepView::Reply(ResponseView::CommandAccepted { command: m })
}

/// An answer that reports a failure.
pub open spec fn failed(m: Seq<char>) -> StepView {
    StepView::Reply(ResponseView::Error { message: m })
}

/// An answer that lists lines.
pub open spec fn listed(v: Seq<Seq<char>>) -> StepView {
    StepView::Reply(ResponseView::Commands(v))
}

/// The arguments after the first, joined with spaces.
pub open spec fn rest_joined(args: Seq<Seq<char>>) -> Seq<char> {
    join_with(args.skip(1), " "@)
}

/// A looked-up value, or the empty string.
pub open spec fn or_empty(v: Option<Seq<char>>) -> Seq<char> {
    match v {
        Some(x) => x,
        None => seq![],
    }
}

/// What the table commands (bindings, buffers, hooks, window options and the
/// prompt history) do; `None` for the other commands.
pub open spec fn spec_compat_tables(c: CompatView, name: Seq<char>, args: Seq<Seq<char>>) -> Option<
    (CompatView, StepView),
> {
    if name == "bind_key"@ {
        if args.len() < 2 {
            Some((c, failed("bind-key requires key and command"@)))
        } else {
            Some(
                (
                    CompatView { key_bindings: table_insert(c.key_bindings, args[0], rest_joined(args)), ..c },
                    accepted("bind-key "@ + args[0]),
                ),
            )
        }
    } else if name == "unbind_key"@ {
        if args.len() == 0 {
            Some((CompatView { key_bindings: seq![], ..c }, accepted("unbind-key all"@)))
        } else {
            Some(
                (
                    CompatView { key_bindings: table_remove(c.key_bindings, args[0]), ..c },
                    accepted("unbind-key "@ + args[0]),
                ),
            )
        }
    } else if name == "list_keys"@ {
        Some((c, listed(joined_lines(c.key_bindings, " -> "@))))
    } else if name == "set_buffer"@ || name == "load_buffer"@ {
        if args.len() < 2 {
            Some((c, failed(name + " requires name and value"@)))
        } else {
            Some(
                (
                    CompatView { buffers: table_insert(c.buffers, args[0], rest_joined(args)), ..c },
                    accepted(name + " "@ + args[0]),
                ),
            )
        }
    } else if name == "delete_buffer"@ {
        if args.len() == 0 {
            Some((CompatView { buffers: seq![], ..c }, accepted("delete-buffer all"@)))
        } else {
            Some(
                (
                    CompatView { buffers: table_remove(c.buffers, args[0]), ..c },
                    accepted("delete-buffer "@ + args[0]),
                ),
            )
        }
    } else if name == "list_buffers"@ {
        Some((c, listed(size_lines(c.buffers))))
    } else if name == "show_buffer"@ || name == "paste_buffer"@ || name == "save_buffer"@ {
        if args.len() == 0 {
            Some((c, failed(name + " requires buffer name"@)))
        } else {
            Some((c, listed(seq![or_empty(table_lookup(c.buffers, args[0]))])))
        }
    } else if name == "set_hook"@ {
        if args.len() < 2 {
            Some((c, failed("set-hook requires name and command"@)))
        } else {
            Some(
                (
                    CompatView { hooks: table_insert(c.hooks, args[0], rest_joined(args)), ..c },
                    accepted("set-hook "@ + args[0]),
                ),
            )
        }
    } else if name == "show_hooks"@ {
        Some((c, listed(joined_lines(c.hooks, " -> "@))))
    } else if name == "set_window_option"@ {
        if args.len() < 2 {
            Some((c, failed("set-window-option requires name and value"@)))
        } else {
            Some(
                (
                    CompatView {
                        window_options: table_insert(c.window_options, args[0], rest_joined(args)),
                        ..c
                    },
                    accepted("set-window-option "@ + args[0]),
                ),
            )
        }
    } else if name == "show_window_options"@ {
        if args.len() > 0 {
            Some((c, listed(seq![args[0] + "="@ + or_empty(table_lookup(c.window_options, args[0]))])))
        } else {
            Some((c, listed(joined_lines(c.window_options, "="@))))
        }
    } else if name == "show_prompt_history"@ {
        Some((c, listed(c.prompt_history)))
    } else if name == "clear_prompt_history"@ {
        Some((CompatView { prompt_history: seq![], ..c }, accepted("clear-prompt-history"@)))
    } else {
        None
    }
}

fn rest_joined_exec(args: &Vec<String>) -> (r: String)
    requires
        args.len() >= 1,
    ensures
        r@ == rest_joined(views_of(args@)),
{
    let ghost av = views_of(args@);
    let mut rest: Vec<String> = Vec::new();
    let mut i: usize = 1;
    while i < args.len()
        invariant
            1 <= i <= args.len(),
            av == views_of(args@),
            views_of(rest@) == av.skip(1).take(i - 1),
        decreases args.len() - i,
    {
        let ghost prev = views_of(rest@);
        rest.push(args[i].clone());
        proof {
            assert(views_of(rest@) =~= prev.push(av[i as int]));
            assert(av.skip(1).take(i as int) =~= av.skip(1).take(i - 1).push(av[i as int]));
        }
        i = i + 1;
    }
    proof {
        assert(av.skip(1).take(i - 1) =~= av.skip(1));
    }
    join_strings(rest.as_slice(), " ")
}

fn accept(m: String) -> (r: Step)
    ensures
        r@ == accepted(m@),
{
    Step::Reply(Response::CommandAccepted { command: m })
}

fn fail(m: String) -> (r: Step)
    ensures
        r@ == failed(m@),
{
    Step::Reply(Response::Error { message: m })
}

fn list(v: Vec<String>) -> (r: Step)
    ensures
        r@ == listed(views_of(v@)),
{
    Step::Reply(Response::Commands(v))
}

fn value_or_empty(v: Option<String>) -> (r: String)
    ensures
        r@ == or_empty(v.deep_view()),
{
    match v {
        Some(x) => x,
        None => String::new(),
    }
}

impl CompatState {
    /// Runs a table command; `None` for the other commands.
    pub fn table_command(&mut self, name: &str, args: &Vec<String>) -> (r: Option<Step>)
        ensures
            match (r, spec_compat_tables(old(self)@, name@, views_of(args@))) {
                (Some(st), Some((c2, sv))) => final(self)@ == c2 && st@ == sv,
                (None, None) => final(self)@ == old(self)@,
                _ => false,
            },
    {
        let ghost av = views_of(args@);
        if str_eq(name, "bind_key") {
            if args.len() < 2 {
                return Some(fail(lit("bind-key requires key and command")));
            }
            let value = rest_joined_exec(args);
            table_set(&mut self.key_bindings, args[0].as_str(), value.as_str());
            Some(accept(concat2("bind-key ", args[0].as_str())))
        } else if str_eq(name, "unbind_key") {
            if args.len() == 0 {
                self.key_bindings = Vec::new();
                proof {
                    assert(self@.key_bindings =~= Seq::<(Seq<char>, Seq<char>)>::empty());
                }
                return Some(accept(lit("unbind-key all")));
            }
            table_delete(&mut self.key_bindings, args[0].as_str());
            Some(accept(concat2("unbind-key ", args[0].as_str())))
        } else if str_eq(name, "list_keys") {
            Some(list(joined_lines_exec(&self.key_bindings, " -> ")))
        } else if str_eq(name, "set_buffer") || str_eq(name, "load_buffer") {
            if args.len() < 2 {
                return Some(fail(concat2(name, " requires name and value")));
            }
            let value = rest_joined_exec(args);
            table_set(&mut self.buffers, args[0].as_str(), value.as_str());
            Some(accept(concat3(name, " ", args[0].as_str())))
        } else if str_eq(name, "delete_buffer") {
            if args.len() == 0 {
                self.buffers = Vec::new();
                proof {
                    assert(self@.buffers =~= Seq::<(Seq<char>, Seq<char>)>::empty());
                }
                return Some(accept(lit("delete-buffer all")));
            }
            table_delete(&mut self.buffers, args[0].as_str());
            Some(accept(concat2("delete-buffer ", args[0].as_str())))
        } else if str_eq(name, "list_buffers") {
            Some(list(size_lines_exec(&self.buffers)))
        } else if str_eq(name, "show_buffer") || str_eq(name, "paste_buffer") || str_eq(name, "save_buffer") {
            if args.len() == 0 {
                return Some(fail(concat2(name, " requires buffer name")));
            }
            let line = value_or_empty(table_get(&self.buffers, args[0].as_str()));
            let mut v: Vec<String> = Vec::new();
            v.push(line);
            proof {
                assert(views_of(v@) =~= seq![or_empty(table_lookup(self@.buffers, av[0]))]);
            }
            Some(list(v))
        } else if str_eq(name, "set_hook") {
            if args.len() < 2 {
                return Some(fail(lit("set-hook requires name and command")));
            }
            let value = rest_joined_exec(args);
            table_set(&mut self.hooks, args[0].as_str(), value.as_str());
            Some(accept(concat2("set-hook ", args[0].as_str())))
        } else if str_eq(name, "show_hooks") {
            Some(list(joined_lines_exec(&self.hooks, " -> ")))
        } else if str_eq(name, "set_window_option") {
            if args.len() < 2 {
                return Some(fail(lit("set-window-option requires name and value")));
            }
            let value = rest_joined_exec(args);
            table_set(&mut self.window_options, args[0].as_str(), value.as_str());
            Some(accept(concat2("set-window-option ", args[0].as_str())))
        } else if str_eq(name, "show_window_options") {
            if args.len() > 0 {
                let value = value_or_empty(table_get(&self.window_options, args[0].as_str()));
                let line = concat3(args[0].as_str(), "=", value.as_str());
                let mut v: Vec<String> = Vec::new();
                v.push(line);
                proof {
                    assert(views_of(v@) =~= seq![av[0] + "="@ + or_empty(table_lookup(self@.window_options, av[0]))]);
                }
                Some(list(v))
            } else {
                Some(list(joined_lines_exec(&self.window_options, "=")))
            }
        } else if str_eq(name, "show_prompt_history") {
            Some(list(clone_strings(&self.prompt_history)))
        } else if str_eq(name, "clear_prompt_history") {
            self.prompt_history = Vec::new();
            proof {
                assert(self@.prompt_history =~= Seq::<Seq<char>>::empty());
            }
            Some(accept(lit("clear-prompt-history")))
        } else {
            None
        }
    }
}

// ---------------------------------------------------------------------------
// The commands on panes, windows, layouts and shells
// ---------------------------------------------------------------------------

/// Whether the command is only recorded and accepted.
pub open spec fn recorded_only(name: Seq<char>) -> bool {
    name == "display_menu"@ || name == "display_panes"@ || name == "display_popup"@ || name == "clock_mode"@ || name == "copy_mode"@ || name == "customize_mode"@ || name == "confirm_before"@ || name == "command_prompt"@ || name == "refresh_client"@ || name == "send_prefix"@ || name == "server_access"@ || name == "swap_window"@ || name == "choose_buffer"@ || name == "choose_client"@ || name == "choose_tree"@ || name == "link_window"@ || name == "move_pane"@ || name == "move_window"@ || name == "resize_pane"@ || name == "respawn_window"@ || name == "unlink_window"@
}

fn recorded_only_exec(name: &str) -> (r: bool)
    ensures
        r == recorded_only(name@),
{
    str_eq(name, "display_menu") || str_eq(name, "display_panes") || str_eq(name, "display_popup") || str_eq(name, "clock_mode") || str_eq(name, "copy_mode") || str_eq(name, "customize_mode") || str_eq(name, "confirm_before") || str_eq(name, "command_prompt") || str_eq(name, "refresh_client") || str_eq(name, "send_prefix") || str_eq(name, "server_access") || str_eq(name, "swap_window") || str_eq(name, "choose_buffer") || str_eq(name, "choose_client") || str_eq(name, "choose_tree") || str_eq(name, "link_window") || str_eq(name, "move_pane") || str_eq(name, "move_window") || str_eq(name, "resize_pane") || str_eq(name, "respawn_window") || str_eq(name, "unlink_window")
}

/// The last argument that is not a flag.
pub open spec fn last_non_flag(args: Seq<Seq<char>>) -> Option<Seq<char>>
    decreases args.len(),
{
    if args.len() == 0 {
        None
    } else if !is_flag(args.last()) {
        Some(args.last())
    } else {
        last_non_flag(args.drop_last())
    }
}

fn last_non_flag_exec(args: &Vec<String>) -> (r: Option<String>)
    ensures
        r.deep_view() == last_non_flag(views_of(args@)),
{
    let ghost av = views_of(args@);
    let mut i: usize = args.len();
    proof {
        assert(av.take(i as int) =~= av);
    }
    while i > 0
        invariant
            i <= args.len(),
            av == views_of(args@),
            last_non_flag(av) == last_non_flag(av.take(i as int)),
        decreases i,
    {
        proof {
            assert(av.take(i as int).drop_last() =~= av.take(i - 1));
            assert(av.take(i as int).last() == av[i - 1]);
        }
        if !starts_with_dash(args[i - 1].as_str()) {
            return Some(args[i - 1].clone());
        }
        i = i - 1;
    }
    None
}

/// The first argument that is not a flag.
pub open spec fn first_plain(args: Seq<Seq<char>>) -> Option<Seq<char>> {
    crate::command::first_non_flag(args)
}

/// Whether the command names a layout cycle backwards: it starts with
/// `previous` or is `prevl`.
pub open spec fn cycles_backwards(name: Seq<char>) -> bool {
    (name.len() >= 8 && name.take(8) == "previous"@) || name == "prevl"@
}

fn cycles_backwards_exec(name: &str) -> (r: bool)
    ensures
        r == cycles_backwards(name@),
{
    let cs = crate::text::chars_of(name);
    let prefix = if cs.len() >= 8 {
        let p = crate::text::string_of_range(&cs, 0, 8);
        proof {
            assert(cs@.subrange(0, 8) =~= name@.take(8));
        }
        str_eq(p.as_str(), "previous")
    } else {
        false
    };
    prefix || str_eq(name, "prevl")
}

/// The inputs last sent to the panes of the first session's active window
/// (what the compatibility `capture-pane` reports).
pub open spec fn pane_inputs(ps: Seq<PaneView>) -> Seq<Seq<char>>
    decreases ps.len(),
{
    if ps.len() == 0 {
        seq![]
    } else {
        pane_inputs(ps.drop_last()) + match ps.last().last_input {
            Some(i) => seq![i],
            None => seq![],
        }
    }
}

/// What the compatibility `capture-pane` reports.
pub open spec fn compat_capture(s: StateView) -> Seq<Seq<char>> {
    if s.sessions.len() == 0 {
        seq![]
    } else {
        let sv = s.sessions[0];
        match first_index(sv.windows, window_with_id(sv.active_window_id)) {
            Some(j) => pane_inputs(sv.windows[j].panes),
            None => seq![],
        }
    }
}

fn compat_capture_exec(state: &ServerState) -> (r: Vec<String>)
    ensures
        views_of(r@) == compat_capture(state@),
{
    let sessions = state.sessions();
    let mut out: Vec<String> = Vec::new();
    if sessions.len() == 0 {
        proof {
            assert(views_of(out@) =~= Seq::<Seq<char>>::empty());
        }
        return out;
    }
    let sv = &sessions[0];
    let ghost svv = sv@;
    assert(svv == state@.sessions[0]);
    let mut j: usize = 0;
    while j < sv.windows.len()
        invariant
            j <= sv.windows.len(),
            svv == sv@,
            svv == state@.sessions[0],
            state@.sessions.len() > 0,
            out@.len() == 0,
            forall|x: int| 0 <= x < j ==> !window_with_id(svv.active_window_id)(#[trigger] svv.windows[x]),
        decreases sv.windows.len() - j,
    {
        if sv.windows[j].id == sv.active_window_id {
            proof {
                lemma_first_index_is(svv.windows, window_with_id(svv.active_window_id), j as int);
            }
            let ps = &sv.windows[j].panes;
            let ghost pv = panes_view(ps@);
            let mut k: usize = 0;
            proof {
                assert(views_of(out@) =~= pane_inputs(pv.take(0)));
            }
            while k < ps.len()
                invariant
                    k <= ps.len(),
                    pv == panes_view(ps@),
                    views_of(out@) == pane_inputs(pv.take(k as int)),
                decreases ps.len() - k,
            {
                proof {
                    assert(pv.take(k + 1).drop_last() =~= pv.take(k as int));
                }
                let ghost prev = views_of(out@);
                match &ps[k].last_input {
                    Some(i) => {
                        out.push(i.clone());
                        proof {
                            assert(views_of(out@) =~= prev.push(i@));
                        }
                    },
                    None => {},
                }
                proof {
                    assert(views_of(out@) =~= pane_inputs(pv.take(k + 1)));
                }
                k = k + 1;
            }
            proof {
                assert(pv.take(k as int) =~= pv);
            }
            return out;
        }
        j = j + 1;
    }
    proof {
        lemma_first_index_none(svv.windows, window_with_id(svv.active_window_id));
        assert(views_of(out@) =~= Seq::<Seq<char>>::empty());
    }
    out
}

/// The `session:window` lines of the windows of a session whose name holds
/// `q` (all of them when `q` is empty).
pub open spec fn window_matches(name: Seq<char>, ws: Seq<WindowView>, q: Seq<char>) -> Seq<Seq<char>>
    decreases ws.len(),
{
    if ws.len() == 0 {
        seq![]
    } else {
        window_matches(name, ws.drop_last(), q) + if q.len() == 0 || contains_sub(ws.last().name, q) {
            seq![name + ":"@ + ws.last().name]
        } else {
            seq![]
        }
    }
}

/// What `find-window` lists, session after session.
pub open spec fn find_lines(ss: Seq<SessionView>, q: Seq<char>) -> Seq<Seq<char>>
    decreases ss.len(),
{
    if ss.len() == 0 {
        seq![]
    } else {
        find_lines(ss.drop_last(), q) + window_matches(ss.last().name, ss.last().windows, q)
    }
}

fn find_lines_exec(state: &ServerState, q: &str) -> (r: Vec<String>)
    ensures
        views_of(r@) == find_lines(state@.sessions, q@),
{
    let sessions = state.sessions();
    let ghost ss = state@.sessions;
    let mut out: Vec<String> = Vec::new();
    let mut i: usize = 0;
    let empty_q = crate::text::str_is_empty(q);
    proof {
        assert(views_of(out@) =~= find_lines(ss.take(0), q@));
    }
    while i < sessions.len()
        invariant
            i <= sessions.len(),
            ss == crate::state::sessions_view(sessions@),
            empty_q == (q@.len() == 0),
            views_of(out@) == find_lines(ss.take(i as int), q@),
        decreases sessions.len() - i,
    {
        let sv = &sessions[i];
        let ghost svv = sv@;
        let ghost before = views_of(out@);
        let mut j: usize = 0;
        proof {
            assert(svv.windows.take(0) =~= Seq::<WindowView>::empty());
            assert(before + window_matches(svv.name, svv.windows.take(0), q@) =~= before);
        }
        while j < sv.windows.len()
            invariant
                j <= sv.windows.len(),
                svv == sv@,
                empty_q == (q@.len() == 0),
                views_of(out@) == before + window_matches(svv.name, svv.windows.take(j as int), q@),
            decreases sv.windows.len() - j,
        {
            proof {
                assert(svv.windows.take(j + 1).drop_last() =~= svv.windows.take(j as int));
            }
            let ghost prev = views_of(out@);
            if empty_q || contains_str(sv.windows[j].name.as_str(), q) {
                out.push(concat3(sv.name.as_str(), ":", sv.windows[j].name.as_str()));
                proof {
                    assert(views_of(out@) =~= prev.push(svv.name + ":"@ + svv.windows[j as int].name));
                }
            }
            proof {
                assert(views_of(out@) =~= before + window_matches(svv.name, svv.windows.take(j + 1), q@));
            }
            j = j + 1;
        }
        proof {
            assert(svv.windows.take(j as int) =~= svv.windows);
            assert(ss.take(i + 1).drop_last() =~= ss.take(i as int));
            assert(ss.take(i + 1).last() == svv);
        }
        i = i + 1;
    }
    proof {
        assert(ss.take(i as int) =~= ss);
    }
    out
}

/// The predicate "the pane line has the id or the title `p`".
pub open spec fn record_named(p: Seq<char>) -> spec_fn(PaneRecordView) -> bool {
    |r: PaneRecordView| decimal(r.pane_id as nat) == p || r.pane_title == p
}

/// The predicate "the pane line is of an active pane".
pub open spec fn record_active() -> spec_fn(PaneRecordView) -> bool {
    |r: PaneRecordView| r.active
}

/// The pane lines of a listing, or the error it meets.
pub open spec fn pane_listing(s: StateView, session: Option<Seq<char>>, window: Option<Seq<char>>) -> Result<
    Seq<PaneRecordView>,
    StateErrorView,
> {
    match sel_sessions(s, session) {
        Err(e) => Err(e),
        Ok(ss) => pane_records(ss, window),
    }
}

/// The pane that `pipe-pane` pipes: the one the target names (by id or
/// title), else the first active one.
pub open spec fn pipe_target(recs: Seq<PaneRecordView>, pane: Option<Seq<char>>) -> Option<int> {
    match pane {
        Some(p) => first_index(recs, record_named(p)),
        None => first_index(recs, record_active()),
    }
}

/// An answer for a failed command on the state.
pub open spec fn state_failed(e: StateErrorView) -> StepView {
    failed(error_text(e))
}

/// The session of `-t`, else of `-s`; likewise for the window.
pub open spec fn either(a: Option<Seq<char>>, b: Option<Seq<char>>) -> Option<Seq<char>> {
    match a {
        Some(x) => Some(x),
        None => b,
    }
}

/// `resize-window`: the targeted window takes the size asked for; the
/// runtime resizes its panes' terminals.
pub open spec fn cmd_resize_window(s: StateView, c: CompatView, d: TargetView, args: Seq<Seq<char>>, rendered: Seq<char>) -> (
    StateView,
    CompatView,
    StepView,
) {
    let (rows, cols) = window_size_args(args);
    let (t, r) = spec_resize_window(s, d.session, d.window, rows, cols);
    match r {
        Ok((_, _, ps)) => (
            t,
            c,
            StepView::Perform(
                EffectView::ResizePtys { pane_ids: crate::state::ids_of(ps), rows, cols },
                PendingView::Recorded(rendered),
            ),
        ),
        Err(e) => (t, c, state_failed(e)),
    }
}

/// A command on the state that is recorded and accepted when it succeeds.
pub open spec fn recorded_when_ok<T>(t: StateView, r: Result<T, StateErrorView>, c: CompatView, rendered: Seq<char>) -> (
    StateView,
    CompatView,
    StepView,
) {
    match r {
        Ok(_) => (t, recorded(c, rendered), accepted(rendered)),
        Err(e) => (t, c, state_failed(e)),
    }
}

/// `swap-pane`: the panes of `-s` and `-t` trade places, within one window.
pub open spec fn cmd_swap_pane(s: StateView, c: CompatView, d: TargetView, args: Seq<Seq<char>>, rendered: Seq<char>) -> (
    StateView,
    CompatView,
    StepView,
) {
    let src = opt_target(flag_value_from(args, "-s"@, 0));
    if d.window is Some && src.window is Some && d.window != src.window {
        (s, c, failed("swap-pane across windows is not implemented"@))
    } else {
        let (t, r) = spec_swap_panes(s, either(d.session, src.session), either(d.window, src.window), src.pane, d.pane);
        recorded_when_ok(t, r, c, rendered)
    }
}

/// `join-pane`: the pane of `-s` joins the window of `-t`.
pub open spec fn cmd_join_pane(s: StateView, c: CompatView, d: TargetView, args: Seq<Seq<char>>, rendered: Seq<char>) -> (
    StateView,
    CompatView,
    StepView,
) {
    let src = opt_target(flag_value_from(args, "-s"@, 0));
    let (t, r) = spec_join_pane(s, either(d.session, src.session), src.window, src.pane, d.window, d.pane);
    recorded_when_ok(t, r, c, rendered)
}

/// `select-layout`: the named preset (tiled by default) is applied.
pub open spec fn cmd_select_layout(s: StateView, c: CompatView, d: TargetView, args: Seq<Seq<char>>, rendered: Seq<char>) -> (
    StateView,
    CompatView,
    StepView,
) {
    let layout_name = match first_plain(args) {
        Some(n) => n,
        None => "tiled"@,
    };
    match preset_from_name(layout_name) {
        None => (s, c, failed("unknown layout: "@ + layout_name)),
        Some(l) => {
            let (t, r) = spec_apply_layout(s, d.session, d.window, l);
            recorded_when_ok(t, r, c, rendered)
        },
    }
}

/// `next-layout` and `previous-layout`: the preset after or before the
/// current one is applied.
pub open spec fn cmd_cycle_layout(s: StateView, c: CompatView, d: TargetView, name: Seq<char>, rendered: Seq<char>) -> (
    StateView,
    CompatView,
    StepView,
) {
    let (t, r) = spec_cycle_layout(s, d.session, d.window, !cycles_backwards(name));
    match r {
        Ok((_, _, applied)) => (t, recorded(c, rendered), accepted(rendered + " -> "@ + preset_name(applied))),
        Err(e) => (t, c, state_failed(e)),
    }
}

/// `pipe-pane`: the runtime toggles a pipe on the targeted pane.
pub open spec fn cmd_pipe_pane(s: StateView, c: CompatView, d: TargetView, args: Seq<Seq<char>>, rendered: Seq<char>) -> (
    StateView,
    CompatView,
    StepView,
) {
    match pane_listing(s, d.session, d.window) {
        Err(e) => (s, c, state_failed(e)),
        Ok(recs) => match pipe_target(recs, d.pane) {
            None => (s, c, failed("pipe-pane: no pane"@)),
            Some(x) => (
                s,
                c,
                StepView::Perform(
                    EffectView::TogglePipe { pane_id: recs[x].pane_id, command: last_non_flag(args) },
                    PendingView::Piped(rendered),
                ),
            ),
        },
    }
}

/// `wait-for`: `-S` signals the token; otherwise a signalled token is
/// consumed.
pub open spec fn cmd_wait_for(c: CompatView, args: Seq<Seq<char>>) -> (CompatView, StepView) {
    if args.len() == 0 {
        (c, failed("wait-for requires a token"@))
    } else {
        let token = args.last();
        if args.contains("-S"@) {
            (
                CompatView { wait_tokens: crate::tables::names_insert(c.wait_tokens, token), ..c },
                accepted("wait-for signalled "@ + token),
            )
        } else if c.wait_tokens.contains(token) {
            (
                CompatView { wait_tokens: crate::tables::names_remove(c.wait_tokens, token), ..c },
                accepted("wait-for consumed "@ + token),
            )
        } else {
            (c, accepted("wait-for would-wait "@ + token))
        }
    }
}

/// `source-file`, `run-shell` and `if-shell`: the runtime reads the file or
/// runs the shell command.
pub open spec fn cmd_shell(name: Seq<char>, args: Seq<Seq<char>>, rendered: Seq<char>) -> StepView {
    if name == "source_file"@ || name == "source"@ {
        if args.len() == 0 {
            failed("source-file requires a path"@)
        } else {
            StepView::Perform(EffectView::ReadFile(args[0]), PendingView::SourceRead { path: args[0], rendered })
        }
    } else if name == "run_shell"@ || name == "run"@ {
        if args.len() == 0 {
            failed("run-shell requires a command"@)
        } else {
            StepView::Perform(EffectView::RunShell(args[0]), PendingView::ShellRan(rendered))
        }
    } else {
        if args.len() < 2 {
            failed("if-shell requires <cond> <true-cmd>"@)
        } else {
            StepView::Perform(
                EffectView::TestShell(args[0]),
                PendingView::ShellTested {
                    rendered,
                    true_cmd: args[1],
                    false_cmd: if args.len() > 2 {
                        Some(args[2])
                    } else {
                        None
                    },
                },
            )
        }
    }
}

/// Whether the command runs through the runtime's shell or reads a file.
pub open spec fn is_shell_command(name: Seq<char>) -> bool {
    name == "source_file"@ || name == "source"@ || name == "run_shell"@ || name == "run"@ || name
        == "if_shell"@ || name == "if"@
}

/// What the commands on panes, windows, layouts and shells do, and the
/// fallbacks: the state afterwards, the tables afterwards and the next step.
pub open spec fn spec_compat_state(
    s: StateView,
    c: CompatView,
    name: Seq<char>,
    target: Option<Seq<char>>,
    args: Seq<Seq<char>>,
) -> (StateView, CompatView, StepView) {
    let rendered = compat_text(name, target, args);
    let d = opt_target(target);
    if name == "resize_window"@ {
        cmd_resize_window(s, c, d, args, rendered)
    } else if name == "swap_pane"@ {
        cmd_swap_pane(s, c, d, args, rendered)
    } else if name == "rotate_window"@ {
        let (t, r) = spec_rotate_window(s, d.session, d.window, args.contains("-U"@));
        recorded_when_ok(t, r, c, rendered)
    } else if name == "break_pane"@ {
        let (t, r) = spec_break_pane(s, d.session, d.window, d.pane, flag_value_from(args, "-n"@, 0));
        recorded_when_ok(t, r, c, rendered)
    } else if name == "join_pane"@ {
        cmd_join_pane(s, c, d, args, rendered)
    } else if name == "respawn_pane"@ {
        let (t, r) = pane_command(s, sel_target(s, d.session, d.window, d.pane, true), clear_io(), true);
        match r {
            Ok((_, _, p)) => (
                t,
                c,
                StepView::Perform(EffectView::RespawnPane(p.id), PendingView::RecordedUnlessFailed(rendered)),
            ),
            Err(e) => (t, c, state_failed(e)),
        }
    } else if name == "select_layout"@ || name == "selectl"@ {
        cmd_select_layout(s, c, d, args, rendered)
    } else if name == "next_layout"@ || name == "nextl"@ || name == "previous_layout"@ || name == "prevl"@ {
        cmd_cycle_layout(s, c, d, name, rendered)
    } else if is_shell_command(name) {
        (s, c, cmd_shell(name, args, rendered))
    } else if name == "pipe_pane"@ || name == "pipep"@ {
        cmd_pipe_pane(s, c, d, args, rendered)
    } else if recorded_only(name) {
        (s, recorded(c, rendered), accepted(rendered))
    } else if name == "capture_pane"@ {
        (s, c, listed(compat_capture(s)))
    } else if name == "clear_history"@ {
        let (t, r) = pane_command(s, sel_target(s, d.session, d.window, d.pane, true), clear_output(), false);
        match r {
            Ok((_, _, p)) => (t, c, StepView::Perform(EffectView::ClearHistory(p.id), PendingView::Recorded(rendered))),
            Err(e) => (t, c, state_failed(e)),
        }
    } else if name == "find_window"@ {
        (s, c, listed(find_lines(s.sessions, if args.len() > 0 { args[0] } else { seq![] })))
    } else if name == "wait_for"@ {
        let (c2, st) = cmd_wait_for(c, args);
        (s, c2, st)
    } else {
        (s, c, accepted("compat handled "@ + name))
    }
}

/// What a compatibility command does: a table command, else a command on
/// the state or the runtime.
pub open spec fn spec_compat(
    s: StateView,
    c: CompatView,
    name: Seq<char>,
    target: Option<Seq<char>>,
    args: Seq<Seq<char>>,
) -> (StateView, CompatView, StepView) {
    match spec_compat_tables(c, name, args) {
        Some((c2, st)) => (s, c2, st),
        None => spec_compat_state(s, c, name, target, args),
    }
}

fn state_fail(e: crate::state::StateError) -> (r: Step)
    ensures
        r@ == state_failed(e@),
{
    fail(e.message())
}

fn record_when_ok<T>(compat: &mut CompatState, ok: bool, rendered: String) -> (r: Step)
    ensures
        ok ==> final(compat)@ == recorded(old(compat)@, rendered@) && r@ == accepted(rendered@),
        !ok ==> final(compat)@ == old(compat)@,
{
    if ok {
        compat.record(rendered.clone());
    }
    accept(rendered)
}

fn exec_resize_window(
    state: &mut ServerState,
    d: &ParsedTarget,
    args: &Vec<String>,
    rendered: String,
) -> (r: Step)
    ensures
        ({
            let (t, c2, st) = cmd_resize_window(old(state)@, empty_compat(), d@, views_of(args@), rendered@);
            final(state)@ == t && r@ == st
        }),
{
    let fallback = number_args_exec(args);
    let cols0: u16 = match compat_flag_u16(args, "-x") {
        Some(c) => c,
        None => if fallback.len() > 0 {
            fallback[0]
        } else {
            120
        },
    };
    let rows0: u16 = match compat_flag_u16(args, "-y") {
        Some(r) => r,
        None => if fallback.len() > 1 {
            fallback[1]
        } else {
            40
        },
    };
    let rows: u16 = if rows0 == 0 { 1 } else { rows0 };
    let cols: u16 = if cols0 == 0 { 1 } else { cols0 };
    match state.resize_window(crate::text::opt_str(&d.session), crate::text::opt_str(&d.window), rows, cols) {
        Ok((_s, _w, panes)) => {
            let ghost pv = crate::state::panes_view(panes@);
            let mut ids: Vec<u64> = Vec::new();
            let mut k: usize = 0;
            while k < panes.len()
                invariant
                    k <= panes.len(),
                    pv == crate::state::panes_view(panes@),
                    ids@ == crate::state::ids_of(pv).take(k as int),
                decreases panes.len() - k,
            {
                ids.push(panes[k].id);
                proof {
                    assert(ids@ =~= crate::state::ids_of(pv).take(k + 1));
                }
                k = k + 1;
            }
            proof {
                assert(ids@ =~= crate::state::ids_of(pv));
            }
            Step::Perform(Effect::ResizePtys { pane_ids: ids, rows, cols }, Pending::Recorded(rendered))
        },
        Err(e) => state_fail(e),
    }
}

fn exec_swap_pane(
    state: &mut ServerState,
    compat: &mut CompatState,
    d: &ParsedTarget,
    args: &Vec<String>,
    rendered: String,
) -> (r: Step)
    ensures
        (final(state)@, final(compat)@, r@) == cmd_swap_pane(old(state)@, old(compat)@, d@, views_of(args@), rendered@),
{
    let src_flag = compat_flag_value(args, "-s");
    let src = parse_opt_target(&src_flag);
    let different = match (&d.window, &src.window) {
        (Some(a), Some(b)) => !str_eq(a.as_str(), b.as_str()),
        _ => false,
    };
    if different {
        return fail(lit("swap-pane across windows is not implemented"));
    }
    let session = if d.session.is_some() {
        crate::text::opt_str(&d.session)
    } else {
        crate::text::opt_str(&src.session)
    };
    let window = if d.window.is_some() {
        crate::text::opt_str(&d.window)
    } else {
        crate::text::opt_str(&src.window)
    };
    match state.swap_panes(session, window, crate::text::opt_str(&src.pane), crate::text::opt_str(&d.pane)) {
        Ok(_) => record_when_ok::<()>(compat, true, rendered),
        Err(e) => state_fail(e),
    }
}

fn exec_join_pane(
    state: &mut ServerState,
    compat: &mut CompatState,
    d: &ParsedTarget,
    args: &Vec<String>,
    rendered: String,
) -> (r: Step)
    ensures
        (final(state)@, final(compat)@, r@) == cmd_join_pane(old(state)@, old(compat)@, d@, views_of(args@), rendered@),
{
    let src_flag = compat_flag_value(args, "-s");
    let src = parse_opt_target(&src_flag);
    let session = if d.session.is_some() {
        crate::text::opt_str(&d.session)
    } else {
        crate::text::opt_str(&src.session)
    };
    match state.join_pane(
        session,
        crate::text::opt_str(&src.window),
        crate::text::opt_str(&src.pane),
        crate::text::opt_str(&d.window),
        crate::text::opt_str(&d.pane),
    ) {
        Ok(_) => record_when_ok::<()>(compat, true, rendered),
        Err(e) => state_fail(e),
    }
}

fn exec_select_layout(
    state: &mut ServerState,
    compat: &mut CompatState,
    d: &ParsedTarget,
    args: &Vec<String>,
    rendered: String,
) -> (r: Step)
    requires
        server_fits(old(state)@),
    ensures
        (final(state)@, final(compat)@, r@) == cmd_select_layout(old(state)@, old(compat)@, d@, views_of(args@), rendered@),
{
    proof {
        lemma_fits_targets(state@, d.session.deep_view(), d.window.deep_view(), d.pane.deep_view());
        assert(views_of(args@).skip(0) =~= views_of(args@));
    }
    let layout_name = match crate::command::parse_name_arg(args, 0) {
        Some(n) => n,
        None => lit("tiled"),
    };
    match PresetLayout::parse(layout_name.as_str()) {
        None => fail(concat2("unknown layout: ", layout_name.as_str())),
        Some(layout) => match state.apply_layout(crate::text::opt_str(&d.session), crate::text::opt_str(&d.window), layout) {
            Ok(_) => record_when_ok::<()>(compat, true, rendered),
            Err(e) => state_fail(e),
        },
    }
}

fn exec_cycle_layout(
    state: &mut ServerState,
    compat: &mut CompatState,
    d: &ParsedTarget,
    name: &str,
    rendered: String,
) -> (r: Step)
    requires
        server_fits(old(state)@),
    ensures
        (final(state)@, final(compat)@, r@) == cmd_cycle_layout(old(state)@, old(compat)@, d@, name@, rendered@),
{
    proof {
        lemma_fits_targets(state@, d.session.deep_view(), d.window.deep_view(), d.pane.deep_view());
    }
    let forward = !cycles_backwards_exec(name);
    match state.cycle_layout(crate::text::opt_str(&d.session), crate::text::opt_str(&d.window), forward) {
        Ok((_s, _w, applied)) => {
            compat.record(rendered.clone());
            accept(concat3(rendered.as_str(), " -> ", applied.as_str()))
        },
        Err(e) => state_fail(e),
    }
}

fn find_record(panes: &Vec<crate::state::PaneRecord>, pane: &Option<String>) -> (r: Option<usize>)
    ensures
        match r {
            Some(x) => x < panes.len() && pipe_target(pane_records_view(panes@), pane.deep_view()) == Some(x as int),
            None => pipe_target(pane_records_view(panes@), pane.deep_view()) is None,
        },
{
    let ghost recs = pane_records_view(panes@);
    let ghost pred = match pane.deep_view() {
        Some(p) => record_named(p),
        None => record_active(),
    };
    let mut x: usize = 0;
    while x < panes.len()
        invariant
            x <= panes.len(),
            recs == pane_records_view(panes@),
            pred == match pane.deep_view() {
                Some(p) => record_named(p),
                None => record_active(),
            },
            forall|y: int| 0 <= y < x ==> !pred(#[trigger] recs[y]),
        decreases panes.len() - x,
    {
        let hit = match pane {
            Some(p) => str_eq(u64_to_string(panes[x].pane_id).as_str(), p.as_str()) || str_eq(
                panes[x].pane_title.as_str(),
                p.as_str(),
            ),
            None => panes[x].active,
        };
        if hit {
            proof {
                lemma_first_index_is(recs, pred, x as int);
            }
            return Some(x);
        }
        x = x + 1;
    }
    proof {
        lemma_first_index_none(recs, pred);
    }
    None
}

fn exec_pipe_pane(state: &ServerState, d: &ParsedTarget, args: &Vec<String>, rendered: String) -> (r: Step)
    ensures
        r@ == cmd_pipe_pane(state@, empty_compat(), d@, views_of(args@), rendered@).2,
{
    let shell_cmd = last_non_flag_exec(args);
    match state.list_panes(crate::text::opt_str(&d.session), crate::text::opt_str(&d.window)) {
        Err(e) => state_fail(e),
        Ok(panes) => match find_record(&panes, &d.pane) {
            None => fail(lit("pipe-pane: no pane")),
            Some(x) => {
                assert(pane_records_view(panes@)[x as int].pane_id == panes@[x as int].pane_id);
                Step::Perform(
                Effect::TogglePipe { pane_id: panes[x].pane_id, command: shell_cmd },
                Pending::Piped(rendered),
            )
            },
        },
    }
}

fn exec_shell(name: &str, args: &Vec<String>, rendered: String) -> (r: Step)
    ensures
        r@ == cmd_shell(name@, views_of(args@), rendered@),
{
    if str_eq(name, "source_file") || str_eq(name, "source") {
        if args.len() == 0 {
            return fail(lit("source-file requires a path"));
        }
        Step::Perform(Effect::ReadFile(args[0].clone()), Pending::SourceRead { path: args[0].clone(), rendered })
    } else if str_eq(name, "run_shell") || str_eq(name, "run") {
        if args.len() == 0 {
            return fail(lit("run-shell requires a command"));
        }
        Step::Perform(Effect::RunShell(args[0].clone()), Pending::ShellRan(rendered))
    } else {
        if args.len() < 2 {
            return fail(lit("if-shell requires <cond> <true-cmd>"));
        }
        let false_cmd = if args.len() > 2 {
            Some(args[2].clone())
        } else {
            None
        };
        Step::Perform(
            Effect::TestShell(args[0].clone()),
            Pending::ShellTested { rendered, true_cmd: args[1].clone(), false_cmd },
        )
    }
}

impl CompatState {
    fn wait_for(&mut self, args: &Vec<String>) -> (r: Step)
        ensures
            (final(self)@, r@) == cmd_wait_for(old(self)@, views_of(args@)),
    {
        if args.len() == 0 {
            return fail(lit("wait-for requires a token"));
        }
        let token = args[args.len() - 1].clone();
        if compat_has_flag(args, "-S") {
            names_add(&mut self.wait_tokens, token.as_str());
            accept(concat2("wait-for signalled ", token.as_str()))
        } else if names_drop(&mut self.wait_tokens, token.as_str()) {
            accept(concat2("wait-for consumed ", token.as_str()))
        } else {
            accept(concat2("wait-for would-wait ", token.as_str()))
        }
    }
}

/// Whether a compatibility command works on the panes and windows of the
/// state, and so may need its bounds.
pub open spec fn compat_needs_room(name: Seq<char>) -> bool {
    name == "resize_window"@ || name == "swap_pane"@ || name == "rotate_window"@ || name == "break_pane"@
        || name == "join_pane"@ || name == "respawn_pane"@ || name == "select_layout"@ || name == "selectl"@
        || name == "next_layout"@ || name == "nextl"@ || name == "previous_layout"@ || name == "prevl"@
        || name == "pipe_pane"@ || name == "pipep"@ || name == "clear_history"@
}

/// Whether a compatibility command works on the panes and windows of the
/// state.
pub fn compat_needs_room_exec(name: &str) -> (r: bool)
    ensures
        r == compat_needs_room(name@),
{
    str_eq(name, "resize_window") || str_eq(name, "swap_pane") || str_eq(name, "rotate_window") || str_eq(
        name,
        "break_pane",
    ) || str_eq(name, "join_pane") || str_eq(name, "respawn_pane") || str_eq(name, "select_layout") || str_eq(
        name,
        "selectl",
    ) || str_eq(name, "next_layout") || str_eq(name, "nextl") || str_eq(name, "previous_layout") || str_eq(
        name,
        "prevl",
    ) || str_eq(name, "pipe_pane") || str_eq(name, "pipep") || str_eq(name, "clear_history")
}

/// Runs a compatibility command.
pub fn execute_compat_command(
    state: &mut ServerState,
    compat: &mut CompatState,
    name: &str,
    target: Option<String>,
    args: Vec<String>,
) -> (r: Step)
    requires
        compat_needs_room(name@) ==> server_fits(old(state)@),
    ensures
        (final(state)@, final(compat)@, r@) == spec_compat(
            old(state)@,
            old(compat)@,
            name@,
            target.deep_view(),
            views_of(args@),
        ),
{
    if let Some(step) = compat.table_command(name, &args) {
        return step;
    }
    let rendered = compat_command_text(name, crate::text::opt_str(&target), &args);
    let dst = parse_opt_target(&target);
    let ds = crate::text::opt_str(&dst.session);
    let dw = crate::text::opt_str(&dst.window);
    let dp = crate::text::opt_str(&dst.pane);
    if str_eq(name, "resize_window") {
        exec_resize_window(state, &dst, &args, rendered)
    } else if str_eq(name, "swap_pane") {
        exec_swap_pane(state, compat, &dst, &args, rendered)
    } else if str_eq(name, "rotate_window") {
        let upward = compat_has_flag(&args, "-U");
        match state.rotate_window(ds, dw, upward) {
            Ok(_) => record_when_ok::<()>(compat, true, rendered),
            Err(e) => state_fail(e),
        }
    } else if str_eq(name, "break_pane") {
        let new_name = compat_flag_value(&args, "-n");
        match state.break_pane(ds, dw, dp, new_name) {
            Ok(_) => record_when_ok::<()>(compat, true, rendered),
            Err(e) => state_fail(e),
        }
    } else if str_eq(name, "join_pane") {
        exec_join_pane(state, compat, &dst, &args, rendered)
    } else if str_eq(name, "respawn_pane") {
        match state.respawn_pane(ds, dw, dp) {
            Ok((_s, _w, pane)) => Step::Perform(Effect::RespawnPane(pane.id), Pending::RecordedUnlessFailed(rendered)),
            Err(e) => state_fail(e),
        }
    } else if str_eq(name, "select_layout") || str_eq(name, "selectl") {
        exec_select_layout(state, compat, &dst, &args, rendered)
    } else if str_eq(name, "next_layout") || str_eq(name, "nextl") || str_eq(name, "previous_layout")
        || str_eq(name, "prevl") {
        exec_cycle_layout(state, compat, &dst, name, rendered)
    } else if str_eq(name, "source_file") || str_eq(name, "source") || str_eq(name, "run_shell") || str_eq(
        name,
        "run",
    ) || str_eq(name, "if_shell") || str_eq(name, "if") {
        exec_shell(name, &args, rendered)
    } else if str_eq(name, "pipe_pane") || str_eq(name, "pipep") {
        exec_pipe_pane(state, &dst, &args, rendered)
    } else if recorded_only_exec(name) {
        record_when_ok::<()>(compat, true, rendered)
    } else if str_eq(name, "capture_pane") {
        list(compat_capture_exec(state))
    } else if str_eq(name, "clear_history") {
        match state.clear_pane_history(ds, dw, dp) {
            Ok((_s, _w, pane)) => Step::Perform(Effect::ClearHistory(pane.id), Pending::Recorded(rendered)),
            Err(e) => state_fail(e),
        }
    } else if str_eq(name, "find_window") {
        let query = if args.len() > 0 {
            args[0].clone()
        } else {
            String::new()
        };
        list(find_lines_exec(state, query.as_str()))
    } else if str_eq(name, "wait_for") {
        compat.wait_for(&args)
    } else {
        accept(concat2("compat handled ", name))
    }
}

} // verus!
