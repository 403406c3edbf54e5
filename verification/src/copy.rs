//! Copy mode: a cursor over the lines a pane shows, a selection between
//! an anchor and the cursor, and the text it yanks.
use vstd::prelude::*;
use crate::text::{chars_of, string_of, string_of_range, push_char, views_of};

verus! {

/// Where copy mode's cursor and anchor are, as row and column.
#[derive(Debug, Clone, Copy)]
pub struct CopyModeState {
    pub cursor_row: usize,
    pub cursor_col: usize,
    pub anchor: Option<(usize, usize)>,
}

/// Two positions, the earlier first.
pub open spec fn ordered(a: (usize, usize), b: (usize, usize)) -> ((usize, usize), (usize, usize)) {
    if a.0 < b.0 || (a.0 == b.0 && a.1 <= b.1) {
        (a, b)
    } else {
        (b, a)
    }
}

/// Two positions, the earlier first.
pub fn normalize_selection(a: (usize, usize), b: (usize, usize)) -> (r: ((usize, usize), (usize, usize)))
    ensures
        r == ordered(a, b),
{
    if a.0 < b.0 || (a.0 == b.0 && a.1 <= b.1) {
        (a, b)
    } else {
        (b, a)
    }
}

/// The first `n` characters of `s`.
pub open spec fn clipped(s: Seq<char>, n: usize) -> Seq<char> {
    if n < s.len() {
        s.take(n as int)
    } else {
        s
    }
}

/// The first `max_chars` characters of a string.
pub fn clip_to_chars(input: &str, max_chars: usize) -> (r: String)
    ensures
        r@ == clipped(input@, max_chars),
{
    let cs = chars_of(input);
    if max_chars < cs.len() {
        string_of_range(&cs, 0, max_chars)
    } else {
        string_of(&cs)
    }
}

/// Whether column `j` of row `row` lies in the selection.
pub open spec fn selected(copy: CopyModeState, row: usize, j: int, len: nat) -> bool {
    match copy.anchor {
        None => false,
        Some(a) => {
            let (start, end) = ordered(a, (copy.cursor_row, copy.cursor_col));
            let from = if row == start.0 {
                start.1 as int
            } else {
                0
            };
            let to = if row == end.0 {
                end.1 as int
            } else {
                len - 1
            };
            len > 0 && start.0 <= row && row <= end.0 && from <= j && j <= to && j <= len - 1
        },
    }
}

/// One character of a line under copy mode: a selected space shows as a
/// middle dot.
pub open spec fn overlay_char(line: Seq<char>, row: usize, copy: CopyModeState, j: int) -> char {
    if selected(copy, row, j, line.len()) && line[j] == ' ' {
        '·'
    } else {
        line[j]
    }
}

/// The characters from `j` on of a line under copy mode.
pub open spec fn overlay_from(line: Seq<char>, row: usize, copy: CopyModeState, j: int) -> Seq<char>
    decreases line.len() - j,
{
    if j < 0 || j >= line.len() {
        seq![]
    } else {
        seq![overlay_char(line, row, copy, j)] + overlay_from(line, row, copy, j + 1)
    }
}

/// A line as copy mode shows it: selected spaces as middle dots, and the
/// cursor as a full block on its row.
pub open spec fn overlay_line(line: Seq<char>, row: usize, copy: CopyModeState) -> Seq<char> {
    let marked = overlay_from(line, row, copy, 0);
    if row == copy.cursor_row {
        if line.len() == 0 {
            seq!['█']
        } else {
            let col = if copy.cursor_col < line.len() {
                copy.cursor_col as int
            } else {
                line.len() - 1
            };
            marked.update(col, '█')
        }
    } else {
        marked
    }
}

proof fn lemma_overlay_from(line: Seq<char>, row: usize, copy: CopyModeState, j: int)
    requires
        0 <= j <= line.len(),
    ensures
        overlay_from(line, row, copy, j).len() == line.len() - j,
        forall|k: int| 0 <= k < line.len() - j ==> #[trigger] overlay_from(line, row, copy, j)[k]
            == overlay_char(line, row, copy, j + k),
    decreases line.len() - j,
{
    if j < line.len() {
        lemma_overlay_from(line, row, copy, j + 1);
        let rest = overlay_from(line, row, copy, j + 1);
        assert forall|k: int| 0 <= k < line.len() - j implies #[trigger] overlay_from(line, row, copy, j)[k]
            == overlay_char(line, row, copy, j + k) by {
            if k > 0 {
                assert(overlay_from(line, row, copy, j)[k] == rest[k - 1]);
            }
        }
    }
}

/// A line as copy mode shows it.
pub fn render_copy_overlay_line(line: &str, row_idx: usize, copy: &CopyModeState) -> (r: String)
    ensures
        r@ == overlay_line(line@, row_idx, *copy),
{
    let mut chars = chars_of(line);
    let ghost orig = chars@;
    let n = chars.len();
    proof {
        lemma_overlay_from(orig, row_idx, *copy, 0);
    }
    match copy.anchor {
        Some(a) => {
            let (start, end) = normalize_selection(a, (copy.cursor_row, copy.cursor_col));
            if row_idx >= start.0 && row_idx <= end.0 && n > 0 {
                let from = if row_idx == start.0 {
                    start.1
                } else {
                    0
                };
                let to = if row_idx == end.0 {
                    end.1
                } else {
                    n - 1
                };
                let last = if to < n - 1 {
                    to
                } else {
                    n - 1
                };
                let mut idx = from;
                while idx <= last
                    invariant
                        n == chars.len(),
                        n == orig.len(),
                        n > 0,
                        last < n,
                        from <= idx,
                        forall|k: int| 0 <= k < n && (k < from || k >= idx) ==> #[trigger] chars@[k] == orig[k],
                        forall|k: int| from <= k < idx && k < n ==> #[trigger] chars@[k] == overlay_char(
                            orig,
                            row_idx,
                            *copy,
                            k,
                        ),
                        forall|k: int| from <= k <= last ==> #[trigger] selected(*copy, row_idx, k, n as nat),
                        forall|k: int| 0 <= k < n && (k < from || k > last) ==> !#[trigger] selected(
                            *copy,
                            row_idx,
                            k,
                            n as nat,
                        ),
                    decreases last + 1 - idx,
                {
                    if chars[idx] == ' ' {
                        chars.set(idx, '·');
                    }
                    idx = idx + 1;
                }
                proof {
                    assert forall|k: int| 0 <= k < n implies #[trigger] chars@[k] == overlay_char(
                        orig,
                        row_idx,
                        *copy,
                        k,
                    ) by {
                        if k < from || k > last {
                            assert(!selected(*copy, row_idx, k, n as nat));
                        }
                    }
                }
            } else {
                proof {
                    assert forall|k: int| 0 <= k < n implies !#[trigger] selected(*copy, row_idx, k, n as nat) by {}
                }
            }
        },
        None => {},
    }
    proof {
        assert(chars@ =~= overlay_from(orig, row_idx, *copy, 0));
    }
    if row_idx == copy.cursor_row {
        if n == 0 {
            chars.push('█');
        } else {
            let col = if copy.cursor_col < n {
                copy.cursor_col
            } else {
                n - 1
            };
            chars.set(col, '█');
        }
    }
    let r = string_of(&chars);
    proof {
        if row_idx == copy.cursor_row && n == 0 {
            assert(chars@ =~= seq!['█']);
        }
    }
    r
}

/// The text of rows `row..=last` of a selection from `(sr, sc)` to
/// `(er, ec)`: each row's selected part, rows separated by newlines.
pub open spec fn yank_rows(lines: Seq<Seq<char>>, sr: usize, sc: usize, er: usize, ec: usize, row: int, last: int) -> Seq<char>
    decreases last + 1 - row,
{
    if row > last || row < 0 || row >= lines.len() {
        seq![]
    } else {
        let cs = lines[row];
        let sep = if row != er {
            seq!['\n']
        } else {
            seq![]
        };
        let part = if cs.len() == 0 {
            seq![]
        } else {
            let from = if row == sr {
                sc as int
            } else {
                0
            };
            let to = if row == er {
                ec as int
            } else {
                cs.len() - 1
            };
            let from = if from < cs.len() - 1 {
                from
            } else {
                cs.len() - 1
            };
            let to = if to < cs.len() - 1 {
                to
            } else {
                cs.len() - 1
            };
            cs.subrange(from, to + 1)
        };
        part + sep + yank_rows(lines, sr, sc, er, ec, row + 1, last)
    }
}

/// The text a selection yanks, `None` where there is no selection or it
/// holds nothing.
pub open spec fn yanked(lines: Seq<Seq<char>>, copy: CopyModeState) -> Option<Seq<char>> {
    match copy.anchor {
        None => None,
        Some(a) => {
            let (start, end) = ordered(a, (copy.cursor_row, copy.cursor_col));
            if lines.len() == 0 || start.0 >= lines.len() {
                None
            } else {
                let last = if end.0 < lines.len() - 1 {
                    end.0 as int
                } else {
                    lines.len() - 1
                };
                let t = yank_rows(lines, start.0, start.1, end.0, end.1, start.0 as int, last);
                if t.len() == 0 {
                    None
                } else {
                    Some(t)
                }
            }
        },
    }
}

/// The text a selection yanks.
pub fn yank_selection(lines: &Vec<String>, copy: &CopyModeState) -> (r: Option<String>)
    ensures
        r.deep_view() == yanked(views_of(lines@), *copy),
{
    let ghost lv = views_of(lines@);
    let a = match copy.anchor {
        None => {
            return None;
        },
        Some(a) => a,
    };
    let (start, end) = normalize_selection(a, (copy.cursor_row, copy.cursor_col));
    if lines.len() == 0 || start.0 >= lines.len() {
        return None;
    }
    let last = if end.0 < lines.len() - 1 {
        end.0
    } else {
        lines.len() - 1
    };
    let mut out = String::new();
    let mut row = start.0;
    while row <= last
        invariant
            start.0 <= row <= last + 1,
            last < lines.len(),
            lv == views_of(lines@),
            copy.anchor == Some(a),
            (start, end) == ordered(a, (copy.cursor_row, copy.cursor_col)),
            out@ + yank_rows(lv, start.0, start.1, end.0, end.1, row as int, last as int) == yank_rows(
                lv,
                start.0,
                start.1,
                end.0,
                end.1,
                start.0 as int,
                last as int,
            ),
        decreases last + 1 - row,
    {
        let ghost before = out@;
        let cs = chars_of(lines[row].as_str());
        proof {
            assert(cs@ == lv[row as int]);
        }
        if cs.len() > 0 {
            let from0 = if row == start.0 {
                start.1
            } else {
                0
            };
            let to0 = if row == end.0 {
                end.1
            } else {
                cs.len() - 1
            };
            let from = if from0 < cs.len() - 1 {
                from0
            } else {
                cs.len() - 1
            };
            let to = if to0 < cs.len() - 1 {
                to0
            } else {
                cs.len() - 1
            };
            if from > to {
                proof {
                    assert(false) by {
                        if row == start.0 && row == end.0 {
                            assert(start.1 <= end.1);
                        }
                    }
                }
            }
            let mut k = from;
            while k <= to
                invariant
                    from <= k <= to + 1,
                    to < cs.len(),
                    out@ == before + cs@.subrange(from as int, k as int),
                decreases to + 1 - k,
            {
                push_char(&mut out, cs[k]);
                proof {
                    assert(out@ =~= before + cs@.subrange(from as int, k + 1));
                }
                k = k + 1;
            }
        }
        if row != end.0 {
            push_char(&mut out, '\n');
        }
        proof {
            assert(out@ + yank_rows(lv, start.0, start.1, end.0, end.1, row + 1, last as int) =~= before
                + yank_rows(lv, start.0, start.1, end.0, end.1, row as int, last as int));
        }
        row = row + 1;
    }
    proof {
        assert(yank_rows(lv, start.0, start.1, end.0, end.1, row as int, last as int) =~= Seq::<char>::empty());
        assert(out@ + Seq::<char>::empty() =~= out@);
    }
    if crate::text::str_is_empty(out.as_str()) {
        None
    } else {
        Some(out)
    }
}

} // verus!
