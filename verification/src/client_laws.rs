//! What holds of the client's text handling and modes whatever the input:
//! plain text passes the escape filter unchanged, a typed character is
//! undone by Backspace, orderings are ascending, and the panel key undoes
//! itself.
use vstd::prelude::*;
use crate::display::{strip_ansi, strip_run, StripMode};
use crate::client::{UiView, ui_key, edit_buffer};
use crate::ui::{Key, KeyInput, SnapshotView, key_order, sort_by_key, insert_by_key};
use crate::text::{first_index, lemma_first_index};

verus! {

// ---------------------------------------------------------------------------
// Text
// ---------------------------------------------------------------------------

/// Whether `s` holds no escape character.
pub open spec fn escape_free(s: Seq<char>) -> bool {
    forall|i: int| 0 <= i < s.len() ==> s[i] != '\u{1b}'
}

proof fn lemma_strip_escape_free(s: Seq<char>)
    requires
        escape_free(s),
    ensures
        strip_run(s) == (StripMode::Text, s),
    decreases s.len(),
{
    if s.len() > 0 {
        lemma_strip_escape_free(s.drop_last());
        assert(s.drop_last().push(s.last()) =~= s);
    }
}

/// Text without escape characters passes the escape filter unchanged.
pub proof fn law_plain_text_unstripped(s: Seq<char>)
    requires
        escape_free(s),
    ensures
        strip_ansi(s) == s,
{
    lemma_strip_escape_free(s);
}

/// Typing a character at a prompt and pressing Backspace gives back the
/// line as it was.
pub proof fn law_backspace_undoes_typing(buf: Seq<char>, c: char)
    ensures
        edit_buffer(
            edit_buffer(buf, KeyInput { code: Key::Char(c), ctrl: false, alt: false }),
            KeyInput { code: Key::Backspace, ctrl: false, alt: false },
        ) == buf,
{
    assert(buf.push(c).drop_last() =~= buf);
}

// ---------------------------------------------------------------------------
// Orderings
// ---------------------------------------------------------------------------

/// Whether the keys of some positions ascend.
pub open spec fn ascending(s: Seq<int>, key: spec_fn(int) -> int) -> bool {
    forall|i: int, j: int| 0 <= i < j < s.len() ==> key(s[i]) <= key(s[j])
}

proof fn lemma_insert_ascending(s: Seq<int>, x: int, key: spec_fn(int) -> int)
    requires
        ascending(s, key),
    ensures
        ascending(insert_by_key(s, x, key), key),
        insert_by_key(s, x, key).len() == s.len() + 1,
{
    let p = |e: int| key(x) < key(e);
    lemma_first_index(s, p);
    let at = match first_index(s, p) {
        Some(j) => j,
        None => s.len() as int,
    };
    let t = s.insert(at, x);
    assert forall|i: int, j: int| 0 <= i < j < t.len() implies key(t[i]) <= key(t[j]) by {
        if i < at && j < at {
            assert(t[i] == s[i] && t[j] == s[j]);
        } else if i < at && j == at {
            assert(t[i] == s[i]);
            assert(!p(s[i]));
        } else if i < at && j > at {
            assert(t[i] == s[i] && t[j] == s[j - 1]);
        } else if i == at {
            assert(t[j] == s[j - 1]);
            if at < s.len() {
                assert(p(s[at]));
                if j - 1 > at {
                    assert(key(s[at]) <= key(s[j - 1]));
                }
            }
        } else {
            assert(t[i] == s[i - 1] && t[j] == s[j - 1]);
        }
    }
}

proof fn lemma_sort_ascending(s: Seq<int>, key: spec_fn(int) -> int)
    ensures
        ascending(sort_by_key(s, key), key),
        sort_by_key(s, key).len() == s.len(),
    decreases s.len(),
{
    if s.len() > 0 {
        lemma_sort_ascending(s.drop_last(), key);
        lemma_insert_ascending(sort_by_key(s.drop_last(), key), s.last(), key);
    }
}

/// The order the client lists windows and panes in ascends by key, and
/// has one place for each position.
pub proof fn law_key_order_ascending(keys: Seq<u64>)
    ensures
        ascending(key_order(keys), |i: int| keys[i] as int),
        key_order(keys).len() == keys.len(),
{
    lemma_sort_ascending(Seq::new(keys.len(), |i: int| i), |i: int| keys[i] as int);
}

// ---------------------------------------------------------------------------
// Modes
// ---------------------------------------------------------------------------

/// Whether no popup, prompt or copy mode is open and the prefix is off.
pub open spec fn idle(u: UiView) -> bool {
    u.popup is None && u.popup_input is None && u.command_mode is None && u.copy_mode is None && !u.prefix
}

/// Pressing the prefix and `m` twice gives back the modes it started from.
pub proof fn law_meta_toggle_twice(u: UiView, s: SnapshotView, lines: Seq<Seq<char>>, p: char)
    requires
        idle(u),
    ensures
        ({
            let pk = KeyInput { code: Key::Char(p), ctrl: true, alt: false };
            let mk = KeyInput { code: Key::Char('m'), ctrl: false, alt: false };
            let u1 = ui_key(u, s, lines, p, pk).0;
            let u2 = ui_key(u1, s, lines, p, mk).0;
            let u3 = ui_key(u2, s, lines, p, pk).0;
            let u4 = ui_key(u3, s, lines, p, mk).0;
            &&& u2.show_meta == !u.show_meta
            &&& u4 == u
        }),
{
}



/// Page Up then Page Down gives back the scroll offset, and leaves scroll
/// mode on exactly when that offset is not zero.
pub proof fn law_page_up_then_down(u: UiView, s: SnapshotView, lines: Seq<Seq<char>>, p: char)
    requires
        idle(u),
        u.scroll_offset + 10 <= usize::MAX,
    ensures
        ({
            let up = KeyInput { code: Key::PageUp, ctrl: false, alt: false };
            let down = KeyInput { code: Key::PageDown, ctrl: false, alt: false };
            let u2 = ui_key(ui_key(u, s, lines, p, up).0, s, lines, p, down).0;
            &&& u2.scroll_offset == u.scroll_offset
            &&& u2.scroll_mode == (u.scroll_offset > 0)
        }),
{
}

} // verus!
