//! A small terminal emulator: it replays what a pane printed onto a grid of
//! styled cells, following the control and SGR sequences that shells and
//! common programs emit.
use vstd::prelude::*;
use crate::text::{
    chars_of, first_index, lemma_first_index, parse_unsigned, parse_usize, string_of_range,
};

verus! {

/// A terminal colour.
#[derive(Debug, Clone, Copy, PartialEq, Eq, Structural)]
pub enum Color {
    Reset,
    Black,
    DarkGrey,
    Red,
    DarkRed,
    Green,
    DarkGreen,
    Yellow,
    DarkYellow,
    Blue,
    DarkBlue,
    Magenta,
    DarkMagenta,
    Cyan,
    DarkCyan,
    White,
    Grey,
    Rgb { r: u8, g: u8, b: u8 },
}

/// How a cell is drawn.
#[derive(Debug, Clone, Copy, PartialEq, Eq, Structural)]
pub struct CellStyle {
    pub fg: Option<Color>,
    pub bg: Option<Color>,
    pub bold: bool,
    pub underline: bool,
    pub reverse: bool,
}

/// The style with no colours and no attributes.
pub open spec fn plain() -> CellStyle {
    CellStyle { fg: None, bg: None, bold: false, underline: false, reverse: false }
}

impl Default for CellStyle {
    fn default() -> (r: Self)
        ensures
            r == plain(),
    {
        CellStyle { fg: None, bg: None, bold: false, underline: false, reverse: false }
    }
}

/// One character on the grid with its style.
#[derive(Debug, Clone, Copy, PartialEq, Eq, Structural)]
pub struct Cell {
    pub ch: char,
    pub style: CellStyle,
}

/// A space in the plain style.
pub open spec fn blank() -> Cell {
    Cell { ch: ' ', style: plain() }
}

/// The grid, the cursor and the pen while output is replayed.
pub struct Screen {
    pub lines: Seq<Seq<Cell>>,
    pub row: usize,
    pub col: usize,
    pub saved: (usize, usize),
    pub style: CellStyle,
    pub cursor_visible: bool,
}

/// The screen before any output.
pub open spec fn fresh_screen() -> Screen {
    Screen {
        lines: seq![seq![]],
        row: 0,
        col: 0,
        saved: (0, 0),
        style: plain(),
        cursor_visible: true,
    }
}

/// The rows of a grid of vectors.
pub open spec fn grid(v: Seq<Vec<Cell>>) -> Seq<Seq<Cell>> {
    v.map_values(|l: Vec<Cell>| l@)
}

// ---------------------------------------------------------------------------
// Arithmetic that stays in range
// ---------------------------------------------------------------------------

/// `a + b`, or `usize::MAX` where that does not fit.
pub open spec fn sat_add(a: usize, b: usize) -> usize {
    if a + b > usize::MAX {
        usize::MAX
    } else {
        (a + b) as usize
    }
}

/// `a - b`, or zero where that is negative.
pub open spec fn sat_sub(a: usize, b: usize) -> usize {
    if a >= b {
        (a - b) as usize
    } else {
        0
    }
}

/// The smaller of two numbers.
pub open spec fn min_of(a: usize, b: usize) -> usize {
    if a <= b {
        a
    } else {
        b
    }
}

// ---------------------------------------------------------------------------
// Colours
// ---------------------------------------------------------------------------

/// One of the sixteen basic colours: `idx` from 0 to 7, dark or bright.
pub open spec fn ansi_basic_color(idx: usize, bright: bool) -> Color {
    if !bright {
        if idx == 0 {
            Color::Black
        } else if idx == 1 {
            Color::DarkRed
        } else if idx == 2 {
            Color::DarkGreen
        } else if idx == 3 {
            Color::DarkYellow
        } else if idx == 4 {
            Color::DarkBlue
        } else if idx == 5 {
            Color::DarkMagenta
        } else if idx == 6 {
            Color::DarkCyan
        } else if idx == 7 {
            Color::Grey
        } else {
            Color::Reset
        }
    } else {
        if idx == 0 {
            Color::DarkGrey
        } else if idx == 1 {
            Color::Red
        } else if idx == 2 {
            Color::Green
        } else if idx == 3 {
            Color::Yellow
        } else if idx == 4 {
            Color::Blue
        } else if idx == 5 {
            Color::Magenta
        } else if idx == 6 {
            Color::Cyan
        } else if idx == 7 {
            Color::White
        } else {
            Color::Reset
        }
    }
}

/// One of the sixteen basic colours.
pub fn ansi_basic_color_exec(idx: usize, bright: bool) -> (r: Color)
    ensures
        r == ansi_basic_color(idx, bright),
{
    if !bright {
        if idx == 0 {
            Color::Black
        } else if idx == 1 {
            Color::DarkRed
        } else if idx == 2 {
            Color::DarkGreen
        } else if idx == 3 {
            Color::DarkYellow
        } else if idx == 4 {
            Color::DarkBlue
        } else if idx == 5 {
            Color::DarkMagenta
        } else if idx == 6 {
            Color::DarkCyan
        } else if idx == 7 {
            Color::Grey
        } else {
            Color::Reset
        }
    } else {
        if idx == 0 {
            Color::DarkGrey
        } else if idx == 1 {
            Color::Red
        } else if idx == 2 {
            Color::Green
        } else if idx == 3 {
            Color::Yellow
        } else if idx == 4 {
            Color::Blue
        } else if idx == 5 {
            Color::Magenta
        } else if idx == 6 {
            Color::Cyan
        } else if idx == 7 {
            Color::White
        } else {
            Color::Reset
        }
    }
}

/// One level of the 6x6x6 colour cube.
pub open spec fn cube_level(c: u8) -> u8 {
    if c == 0 {
        0
    } else {
        (55 + c * 40) as u8
    }
}

/// Colour `n` of the 256-colour palette: the basic colours, the colour
/// cube, and the grey ramp.
pub open spec fn ansi_256_color(n: u8) -> Color {
    if n <= 7 {
        ansi_basic_color(n as usize, false)
    } else if n <= 15 {
        ansi_basic_color((n - 8) as usize, true)
    } else if n <= 231 {
        let v = (n - 16) as u8;
        Color::Rgb { r: cube_level(v / 36), g: cube_level((v % 36) / 6), b: cube_level(v % 6) }
    } else {
        let g = (8 + (n - 232) * 10) as u8;
        Color::Rgb { r: g, g: g, b: g }
    }
}

fn cube_level_exec(c: u8) -> (r: u8)
    requires
        c <= 5,
    ensures
        r == cube_level(c),
{
    if c == 0 {
        0
    } else {
        55 + c * 40
    }
}

/// Colour `n` of the 256-colour palette.
pub fn ansi_256_color_exec(n: u8) -> (r: Color)
    ensures
        r == ansi_256_color(n),
{
    if n <= 7 {
        ansi_basic_color_exec(n as usize, false)
    } else if n <= 15 {
        ansi_basic_color_exec((n - 8) as usize, true)
    } else if n <= 231 {
        let v = n - 16;
        Color::Rgb { r: cube_level_exec(v / 36), g: cube_level_exec((v % 36) / 6), b: cube_level_exec(v % 6) }
    } else {
        let g = 8 + (n - 232) * 10;
        Color::Rgb { r: g, g: g, b: g }
    }
}

// ---------------------------------------------------------------------------
// Select graphic rendition
// ---------------------------------------------------------------------------

/// The low byte of a parameter.
pub open spec fn low_byte(v: usize) -> u8 {
    (v % 256) as u8
}

/// The colour that an extended colour parameter (`38` or `48`) at `i`
/// selects, and how many parameters after it it uses.
pub open spec fn extended_color(p: Seq<usize>, i: int) -> Option<(Color, int)> {
    if i + 1 < p.len() && p[i + 1] == 5 && i + 2 < p.len() {
        Some((ansi_256_color(low_byte(p[i + 2])), 2))
    } else if i + 1 < p.len() && p[i + 1] == 2 && i + 4 < p.len() {
        Some((Color::Rgb { r: low_byte(p[i + 2]), g: low_byte(p[i + 3]), b: low_byte(p[i + 4]) }, 4))
    } else {
        None
    }
}

/// The style after the parameter at `i`, and how many more parameters it
/// used.
pub open spec fn sgr_one(p: Seq<usize>, i: int, st: CellStyle) -> (CellStyle, int) {
    let v = p[i];
    if v == 0 {
        (plain(), 0)
    } else if v == 1 {
        (CellStyle { bold: true, ..st }, 0)
    } else if v == 22 {
        (CellStyle { bold: false, ..st }, 0)
    } else if v == 4 {
        (CellStyle { underline: true, ..st }, 0)
    } else if v == 24 {
        (CellStyle { underline: false, ..st }, 0)
    } else if v == 7 {
        (CellStyle { reverse: true, ..st }, 0)
    } else if v == 27 {
        (CellStyle { reverse: false, ..st }, 0)
    } else if 30 <= v <= 37 {
        (CellStyle { fg: Some(ansi_basic_color((v - 30) as usize, false)), ..st }, 0)
    } else if v == 39 {
        (CellStyle { fg: None, ..st }, 0)
    } else if 40 <= v <= 47 {
        (CellStyle { bg: Some(ansi_basic_color((v - 40) as usize, false)), ..st }, 0)
    } else if v == 49 {
        (CellStyle { bg: None, ..st }, 0)
    } else if 90 <= v <= 97 {
        (CellStyle { fg: Some(ansi_basic_color((v - 90) as usize, true)), ..st }, 0)
    } else if 100 <= v <= 107 {
        (CellStyle { bg: Some(ansi_basic_color((v - 100) as usize, true)), ..st }, 0)
    } else if v == 38 || v == 48 {
        match extended_color(p, i) {
            Some((c, used)) => (if v == 38 {
                CellStyle { fg: Some(c), ..st }
            } else {
                CellStyle { bg: Some(c), ..st }
            }, used),
            None => (st, 0),
        }
    } else {
        (st, 0)
    }
}

/// The style after the parameters from `i` on.
pub open spec fn sgr_from(p: Seq<usize>, i: int, st: CellStyle) -> CellStyle
    decreases p.len() - i,
{
    if i < 0 || i >= p.len() {
        st
    } else {
        let (st2, used) = sgr_one(p, i, st);
        sgr_from(p, i + 1 + used, st2)
    }
}

/// The style after an SGR sequence; no parameters reset it.
pub open spec fn apply_sgr(p: Seq<usize>, st: CellStyle) -> CellStyle {
    if p.len() == 0 {
        plain()
    } else {
        sgr_from(p, 0, st)
    }
}

fn extended_color_exec(p: &Vec<usize>, i: usize) -> (r: Option<(Color, usize)>)
    requires
        i < p.len(),
    ensures
        match (r, extended_color(p@, i as int)) {
            (Some((c, u)), Some((c2, u2))) => c == c2 && u == u2,
            (None, None) => true,
            _ => false,
        },
{
    let n = p.len();
    if i + 1 < n && p[i + 1] == 5 && i + 2 < n {
        Some((ansi_256_color_exec((p[i + 2] % 256) as u8), 2))
    } else if i + 1 < n && p[i + 1] == 2 && n - i > 4 {
        Some(
            (
                Color::Rgb {
                    r: (p[i + 2] % 256) as u8,
                    g: (p[i + 3] % 256) as u8,
                    b: (p[i + 4] % 256) as u8,
                },
                4,
            ),
        )
    } else {
        None
    }
}

fn sgr_one_exec(p: &Vec<usize>, i: usize, st: CellStyle) -> (r: (CellStyle, usize))
    requires
        i < p.len(),
    ensures
        r.0 == sgr_one(p@, i as int, st).0,
        r.1 == sgr_one(p@, i as int, st).1,
        r.1 <= 4,
{
    let v = p[i];
    if v == 0 {
        (CellStyle { fg: None, bg: None, bold: false, underline: false, reverse: false }, 0)
    } else if v == 1 {
        (CellStyle { bold: true, ..st }, 0)
    } else if v == 22 {
        (CellStyle { bold: false, ..st }, 0)
    } else if v == 4 {
        (CellStyle { underline: true, ..st }, 0)
    } else if v == 24 {
        (CellStyle { underline: false, ..st }, 0)
    } else if v == 7 {
        (CellStyle { reverse: true, ..st }, 0)
    } else if v == 27 {
        (CellStyle { reverse: false, ..st }, 0)
    } else if 30 <= v && v <= 37 {
        (CellStyle { fg: Some(ansi_basic_color_exec(v - 30, false)), ..st }, 0)
    } else if v == 39 {
        (CellStyle { fg: None, ..st }, 0)
    } else if 40 <= v && v <= 47 {
        (CellStyle { bg: Some(ansi_basic_color_exec(v - 40, false)), ..st }, 0)
    } else if v == 49 {
        (CellStyle { bg: None, ..st }, 0)
    } else if 90 <= v && v <= 97 {
        (CellStyle { fg: Some(ansi_basic_color_exec(v - 90, true)), ..st }, 0)
    } else if 100 <= v && v <= 107 {
        (CellStyle { bg: Some(ansi_basic_color_exec(v - 100, true)), ..st }, 0)
    } else if v == 38 || v == 48 {
        match extended_color_exec(p, i) {
            Some((c, used)) => (if v == 38 {
                CellStyle { fg: Some(c), ..st }
            } else {
                CellStyle { bg: Some(c), ..st }
            }, used),
            None => (st, 0),
        }
    } else {
        (st, 0)
    }
}

/// The style after an SGR sequence with parameters `p`.
pub fn apply_sgr_exec(p: &Vec<usize>, st: CellStyle) -> (r: CellStyle)
    ensures
        r == apply_sgr(p@, st),
{
    if p.len() == 0 {
        return CellStyle { fg: None, bg: None, bold: false, underline: false, reverse: false };
    }
    let mut cur = st;
    let mut i: usize = 0;
    while i < p.len()
        invariant
            p.len() > 0,
            i <= p.len() + 4,
            sgr_from(p@, i as int, cur) == apply_sgr(p@, st),
        decreases p.len() + 5 - i,
    {
        let (st2, used) = sgr_one_exec(p, i, cur);
        cur = st2;
        i = i + 1 + used;
    }
    cur
}

// ---------------------------------------------------------------------------
// Control sequence parameters
// ---------------------------------------------------------------------------

/// The fields of `s` between the separators `sep`, `cur` being the field
/// under way; there is always at least one.
pub open spec fn fields_from(s: Seq<char>, sep: char, cur: Seq<char>) -> Seq<Seq<char>>
    decreases s.len(),
{
    if s.len() == 0 {
        seq![cur]
    } else if s[0] == sep {
        seq![cur] + fields_from(s.drop_first(), sep, seq![])
    } else {
        fields_from(s.drop_first(), sep, cur.push(s[0]))
    }
}

/// One parameter: an empty one or one that does not parse counts as 0.
pub open spec fn csi_param(f: Seq<char>) -> usize {
    if f.len() == 0 {
        0
    } else {
        match parse_unsigned(f, usize::MAX as nat) {
            Some(n) => n as usize,
            None => 0,
        }
    }
}

/// The parameters of a control sequence, separated by `;`.
pub open spec fn csi_params(s: Seq<char>) -> Seq<usize> {
    fields_from(s, ';', seq![]).map_values(|f: Seq<char>| csi_param(f))
}

proof fn lemma_fields_step(s: Seq<char>, sep: char, cur: Seq<char>, i: int)
    requires
        0 <= i < s.len(),
    ensures
        s[i] == sep ==> fields_from(s.skip(i), sep, cur) == seq![cur] + fields_from(s.skip(i + 1), sep, seq![]),
        s[i] != sep ==> fields_from(s.skip(i), sep, cur) == fields_from(s.skip(i + 1), sep, cur.push(s[i])),
{
    assert(s.skip(i).drop_first() =~= s.skip(i + 1));
}

/// The parameters of a control sequence, separated by `;`.
pub fn parse_csi_params(chars: &Vec<char>, from: usize, to: usize) -> (r: Vec<usize>)
    requires
        from <= to <= chars.len(),
    ensures
        r@ == csi_params(chars@.subrange(from as int, to as int)),
{
    let ghost s = chars@.subrange(from as int, to as int);
    let mut out: Vec<usize> = Vec::new();
    let mut start: usize = from;
    let mut i: usize = from;
    proof {
        assert(s.skip(0) =~= s);
        assert(chars@.subrange(from as int, from as int) =~= Seq::<char>::empty());
        assert(out@ + fields_from(s, ';', seq![]).map_values(|f: Seq<char>| csi_param(f)) =~= fields_from(
            s,
            ';',
            seq![],
        ).map_values(|f: Seq<char>| csi_param(f)));
    }
    while i < to
        invariant
            from <= start <= i <= to <= chars.len(),
            s == chars@.subrange(from as int, to as int),
            fields_from(s, ';', seq![]).map_values(|f: Seq<char>| csi_param(f)) == out@
                + fields_from(s.skip(i - from), ';', chars@.subrange(start as int, i as int)).map_values(
                |f: Seq<char>| csi_param(f),
            ),
        decreases to - i,
    {
        proof {
            lemma_fields_step(s, ';', chars@.subrange(start as int, i as int), i - from);
            assert(s[i - from] == chars@[i as int]);
        }
        if chars[i] == ';' {
            let f = string_of_range(chars, start, i);
            let v = if start == i {
                0
            } else {
                match parse_usize(f.as_str()) {
                    Some(n) => n,
                    None => 0,
                }
            };
            let ghost before = out@;
            out.push(v);
            proof {
                let cur = chars@.subrange(start as int, i as int);
                assert(csi_param(cur) == v);
                let rest = fields_from(s.skip(i + 1 - from), ';', seq![]);
                assert(chars@.subrange(i + 1, i + 1) =~= Seq::<char>::empty());
                assert((seq![cur] + rest).map_values(|f: Seq<char>| csi_param(f)) =~= seq![v]
                    + rest.map_values(|f: Seq<char>| csi_param(f)));
                assert(out@ =~= before.push(v));
                assert(before + (seq![v] + rest.map_values(|f: Seq<char>| csi_param(f))) =~= out@
                    + rest.map_values(|f: Seq<char>| csi_param(f)));
            }
            start = i + 1;
        } else {
            proof {
                assert(chars@.subrange(start as int, i as int).push(chars@[i as int]) =~= chars@.subrange(
                    start as int,
                    i + 1,
                ));
            }
        }
        i = i + 1;
    }
    let f = string_of_range(chars, start, to);
    let v = if start == to {
        0
    } else {
        match parse_usize(f.as_str()) {
            Some(n) => n,
            None => 0,
        }
    };
    let ghost before = out@;
    out.push(v);
    proof {
        let cur = chars@.subrange(start as int, to as int);
        assert(s.skip(to - from).len() == 0);
        assert(fields_from(s.skip(to - from), ';', cur) == seq![cur]);
        assert(seq![cur].map_values(|f: Seq<char>| csi_param(f)) =~= seq![v]);
        assert(out@ =~= before + seq![v]);
    }
    out
}

// ---------------------------------------------------------------------------
// The grid
// ---------------------------------------------------------------------------

/// The grid with at least `row + 1` rows, new rows empty.
pub open spec fn ensure_row(lines: Seq<Seq<Cell>>, row: int) -> Seq<Seq<Cell>> {
    if row < lines.len() {
        lines
    } else {
        lines + Seq::new((row + 1 - lines.len()) as nat, |k: int| Seq::<Cell>::empty())
    }
}

/// The screen after writing `ch` at the cursor, in the pen's style; nothing
/// is written at or beyond the right margin.
pub open spec fn put_char(s: Screen, ch: char, width: usize) -> Screen {
    let lines = ensure_row(s.lines, s.row as int);
    if s.col >= width {
        Screen { lines: lines, ..s }
    } else {
        let line = lines[s.row as int];
        let padded = if line.len() <= s.col {
            line + Seq::new((s.col + 1 - line.len()) as nat, |k: int| blank())
        } else {
            line
        };
        Screen {
            lines: lines.update(s.row as int, padded.update(s.col as int, Cell { ch: ch, style: s.style })),
            col: (s.col + 1) as usize,
            ..s
        }
    }
}

/// The screen after a tab: spaces up to the next multiple of eight, and
/// no further than the right margin.
pub open spec fn fill_tab(s: Screen, stop: int, width: usize) -> Screen
    decreases stop - s.col,
{
    if s.col < stop && s.col < width {
        fill_tab(put_char(s, ' ', width), stop, width)
    } else {
        s
    }
}

/// The first parameter, or 0.
pub open spec fn first_param(p: Seq<usize>) -> usize {
    if p.len() > 0 {
        p[0]
    } else {
        0
    }
}

/// The first parameter, or `d` where it is 0 or missing.
pub open spec fn param_or(p: Seq<usize>, d: usize) -> usize {
    if first_param(p) == 0 {
        d
    } else {
        first_param(p)
    }
}

/// A one-based position parameter made zero-based.
pub open spec fn position(p: Seq<usize>, k: int) -> usize {
    let v = if k < p.len() {
        p[k]
    } else {
        1
    };
    sat_sub(if v == 0 {
        1
    } else {
        v
    }, 1)
}

/// A line after an erase-in-line sequence with `mode` at column `col`.
pub open spec fn erase_line(line: Seq<Cell>, mode: usize, col: usize, style: CellStyle) -> Seq<Cell> {
    if mode == 0 {
        if col < line.len() {
            line.take(col as int)
        } else {
            line
        }
    } else if mode == 1 {
        Seq::new(line.len(), |k: int| if k < col {
            Cell { ch: ' ', style: style }
        } else {
            line[k]
        })
    } else if mode == 2 {
        seq![]
    } else {
        line
    }
}

/// The screen after a control sequence with final character `cmd`.
pub open spec fn apply_csi(cmd: char, p: Seq<usize>, width: usize, s: Screen) -> Screen {
    let last = sat_sub(width, 1);
    if cmd == 'A' {
        Screen { row: sat_sub(s.row, param_or(p, 1)), ..s }
    } else if cmd == 'B' {
        let r = sat_add(s.row, param_or(p, 1));
        Screen { row: r, lines: ensure_row(s.lines, r as int), ..s }
    } else if cmd == 'C' {
        Screen { col: min_of(sat_add(s.col, param_or(p, 1)), last), ..s }
    } else if cmd == 'D' {
        Screen { col: sat_sub(s.col, param_or(p, 1)), ..s }
    } else if cmd == 'E' {
        let r = sat_add(s.row, param_or(p, 1));
        Screen { row: r, lines: ensure_row(s.lines, r as int), col: 0, ..s }
    } else if cmd == 'F' {
        Screen { row: sat_sub(s.row, param_or(p, 1)), col: 0, ..s }
    } else if cmd == 'G' {
        Screen { col: min_of(sat_sub(param_or(p, 1), 1), last), ..s }
    } else if cmd == 'H' || cmd == 'f' {
        let r = position(p, 0);
        Screen { row: r, col: min_of(position(p, 1), last), lines: ensure_row(s.lines, r as int), ..s }
    } else if cmd == 'J' {
        if first_param(p) == 2 || first_param(p) == 3 {
            Screen { lines: seq![seq![]], row: 0, col: 0, ..s }
        } else {
            s
        }
    } else if cmd == 'K' {
        let lines = ensure_row(s.lines, s.row as int);
        Screen {
            lines: lines.update(
                s.row as int,
                erase_line(lines[s.row as int], first_param(p), s.col, s.style),
            ),
            ..s
        }
    } else if cmd == 's' {
        Screen { saved: (s.row, s.col), ..s }
    } else if cmd == 'u' {
        Screen { row: s.saved.0, col: s.saved.1, lines: ensure_row(s.lines, s.saved.0 as int), ..s }
    } else if cmd == 'm' {
        Screen { style: apply_sgr(p, s.style), ..s }
    } else {
        s
    }
}

/// Whether the cursor shows after a private sequence (`ESC [ ?`).
pub open spec fn apply_private_csi(cmd: char, p: Seq<usize>, visible: bool) -> bool {
    if first_param(p) == 25 && cmd == 'h' {
        true
    } else if first_param(p) == 25 && cmd == 'l' {
        false
    } else {
        visible
    }
}

/// Whether a sequence's parameter part has ended at `c`.
pub open spec fn csi_final() -> spec_fn(char) -> bool {
    |c: char| ('a' <= c && c <= 'z') || ('A' <= c && c <= 'Z') || c == '~'
}

/// Where an operating-system command that started before `k` ends: just
/// after BEL or `ESC \`, or at the end of the input.
pub open spec fn osc_end(chars: Seq<char>, k: int) -> int
    decreases chars.len() - k,
{
    if k < 0 || k >= chars.len() {
        chars.len() as int
    } else if chars[k] == '\u{7}' {
        k + 1
    } else if chars[k] == '\u{1b}' && k + 1 < chars.len() && chars[k + 1] == '\\' {
        k + 2
    } else {
        osc_end(chars, k + 1)
    }
}

/// Whether `c` opens a private control sequence.
pub open spec fn is_private_marker(c: char) -> bool {
    c == '?' || c == '>' || c == '='
}

/// What the input at `i` does: where the scan goes on and the screen
/// afterwards, or `None` where the input ends inside a sequence and the
/// scan stops.
pub open spec fn step(chars: Seq<char>, i: int, s: Screen, width: usize) -> Option<(int, Screen)> {
    let ch = chars[i];
    let n = i + 1;
    if ch == '\u{1b}' {
        if n >= chars.len() {
            None
        } else if chars[n] == '[' {
            let private = n + 1 < chars.len() && is_private_marker(chars[n + 1]);
            let start = if private {
                n + 2
            } else {
                n + 1
            };
            match first_index(chars.skip(start), csi_final()) {
                None => None,
                Some(k) => {
                    let e = start + k;
                    let p = csi_params(chars.subrange(start, e));
                    Some(
                        (e + 1, if private {
                            Screen { cursor_visible: apply_private_csi(chars[e], p, s.cursor_visible), ..s }
                        } else {
                            apply_csi(chars[e], p, width, s)
                        }),
                    )
                },
            }
        } else if chars[n] == ']' {
            Some((osc_end(chars, n + 1), s))
        } else {
            Some((n + 1, s))
        }
    } else if ch == '\r' {
        Some((n, Screen { col: 0, ..s }))
    } else if ch == '\n' {
        let r = sat_add(s.row, 1);
        Some((n, Screen { row: r, lines: ensure_row(s.lines, r as int), col: 0, ..s }))
    } else if ch == '\u{8}' {
        Some((n, Screen { col: sat_sub(s.col, 1), ..s }))
    } else if ch == '\t' {
        Some((n, fill_tab(s, (s.col / 8 + 1) * 8, width)))
    } else if crate::display::is_control(ch) {
        Some((n, s))
    } else {
        Some((n, put_char(s, ch, width)))
    }
}

/// The screen after replaying the input from `i` on.
pub open spec fn run(chars: Seq<char>, i: int, s: Screen, width: usize) -> Screen
    decreases chars.len() - i,
{
    if i < 0 || i >= chars.len() {
        s
    } else {
        match step(chars, i, s, width) {
            None => s,
            Some((j, t)) => if i < j <= chars.len() {
                run(chars, j, t, width)
            } else {
                t
            },
        }
    }
}

/// What a pane's output shows: its rows of cells and where the cursor is.
pub struct ParsedTerminal {
    pub lines: Vec<Vec<Cell>>,
    pub cursor_row: usize,
    pub cursor_col: usize,
    pub cursor_visible: bool,
}

// ---------------------------------------------------------------------------
// Replaying output
// ---------------------------------------------------------------------------

struct Emulator {
    lines: Vec<Vec<Cell>>,
    row: usize,
    col: usize,
    saved: (usize, usize),
    style: CellStyle,
    cursor_visible: bool,
}

impl View for Emulator {
    type V = Screen;

    closed spec fn view(&self) -> Screen {
        Screen {
            lines: grid(self.lines@),
            row: self.row,
            col: self.col,
            saved: self.saved,
            style: self.style,
            cursor_visible: self.cursor_visible,
        }
    }
}

fn ensure_row_exec(lines: &mut Vec<Vec<Cell>>, row: usize)
    ensures
        grid(final(lines)@) == ensure_row(grid(old(lines)@), row as int),
        final(lines)@.len() > row,
{
    let ghost start = grid(lines@);
    while lines.len() <= row
        invariant
            grid(lines@).len() >= start.len(),
            grid(lines@).len() > start.len() ==> grid(lines@).len() <= row + 1,
            grid(lines@).subrange(0, start.len() as int) == start,
            forall|k: int| start.len() <= k < grid(lines@).len() ==> #[trigger] grid(lines@)[k] == Seq::<Cell>::empty(),
        decreases row + 1 - lines.len(),
    {
        let ghost before = grid(lines@);
        lines.push(Vec::new());
        proof {
            assert(grid(lines@) =~= before.push(Seq::<Cell>::empty()));
            assert(grid(lines@).subrange(0, start.len() as int) =~= before.subrange(0, start.len() as int));
        }
    }
    proof {
        let g = grid(lines@);
        if row < start.len() {
            assert(g.len() == start.len());
            assert(g =~= g.subrange(0, start.len() as int));
        } else {
            assert(g.len() == row + 1);
            assert forall|k: int| 0 <= k < g.len() implies g[k] == ensure_row(start, row as int)[k] by {
                if k < start.len() {
                    assert(g[k] == g.subrange(0, start.len() as int)[k]);
                }
            }
            assert(g =~= ensure_row(start, row as int));
        }
    }
}


fn copy_line(v: &Vec<Cell>) -> (r: Vec<Cell>)
    ensures
        r@ == v@,
{
    let mut out: Vec<Cell> = Vec::new();
    let mut i: usize = 0;
    while i < v.len()
        invariant
            i <= v.len(),
            out@ == v@.take(i as int),
        decreases v.len() - i,
    {
        out.push(v[i]);
        proof {
            assert(out@ =~= v@.take(i + 1));
        }
        i = i + 1;
    }
    proof {
        assert(v@.take(i as int) =~= v@);
    }
    out
}

fn set_line(lines: &mut Vec<Vec<Cell>>, row: usize, line: Vec<Cell>)
    requires
        row < old(lines)@.len(),
    ensures
        grid(final(lines)@) == grid(old(lines)@).update(row as int, line@),
{
    let ghost before = grid(lines@);
    lines.set(row, line);
    proof {
        assert(grid(lines@) =~= before.update(row as int, line@));
    }
}

fn plain_style() -> (r: CellStyle)
    ensures
        r == plain(),
{
    CellStyle { fg: None, bg: None, bold: false, underline: false, reverse: false }
}

impl Emulator {
    fn put_char(&mut self, ch: char, width: usize)
        ensures
            final(self)@ == put_char(old(self)@, ch, width),
    {
        ensure_row_exec(&mut self.lines, self.row);
        if self.col >= width {
            return;
        }
        let ghost lines = grid(self.lines@);
        let mut line = copy_line(&self.lines[self.row]);
        proof {
            assert(line@ == lines[self.row as int]);
        }
        let ghost start = line@;
        while line.len() <= self.col
            invariant
                line@.len() >= start.len(),
                line@.len() > start.len() ==> line@.len() <= self.col + 1,
                line@.subrange(0, start.len() as int) == start,
                forall|k: int| start.len() <= k < line@.len() ==> #[trigger] line@[k] == blank(),
            decreases self.col + 1 - line.len(),
        {
            let ghost before = line@;
            line.push(Cell { ch: ' ', style: plain_style() });
            proof {
                assert(line@.subrange(0, start.len() as int) =~= before.subrange(0, start.len() as int));
            }
        }
        proof {
            let padded = if start.len() <= self.col {
                start + Seq::new((self.col + 1 - start.len()) as nat, |k: int| blank())
            } else {
                start
            };
            if start.len() <= self.col {
                assert(line@.len() == self.col + 1);
                assert forall|k: int| 0 <= k < line@.len() implies line@[k] == padded[k] by {
                    if k < start.len() {
                        assert(line@[k] == line@.subrange(0, start.len() as int)[k]);
                    }
                }
                assert(line@ =~= padded);
            } else {
                assert(line@.len() == start.len());
                assert(line@ =~= line@.subrange(0, start.len() as int));
            }
        }
        line.set(self.col, Cell { ch: ch, style: self.style });
        set_line(&mut self.lines, self.row, line);
        self.col = self.col + 1;
    }

    fn fill_tab(&mut self, width: usize)
        ensures
            final(self)@ == fill_tab(old(self)@, (old(self)@.col / 8 + 1) * 8, width),
    {
        let ghost stop: int = (self.col / 8 + 1) * 8;
        let ghost col0 = self.col;
        let block = self.col / 8;
        while self.col < width && self.col / 8 == block
            invariant
                col0 <= self.col,
                block == col0 / 8,
                stop == (col0 / 8 + 1) * 8,
                fill_tab(self@, stop, width) == fill_tab(old(self)@, stop, width),
            decreases width - self.col,
        {
            proof {
                assert(self.col < stop) by (nonlinear_arith)
                    requires
                        self.col / 8 == col0 / 8,
                        stop == (col0 / 8 + 1) * 8,
                ;
            }
            self.put_char(' ', width);
        }
        proof {
            if self.col < width {
                assert(self.col >= stop) by (nonlinear_arith)
                    requires
                        self.col / 8 != col0 / 8,
                        col0 <= self.col,
                        stop == (col0 / 8 + 1) * 8,
                ;
            }
        }
    }

    fn apply_csi(&mut self, cmd: char, p: &Vec<usize>, width: usize)
        ensures
            final(self)@ == apply_csi(cmd, p@, width, old(self)@),
    {
        let last = width.saturating_sub(1);
        let first = if p.len() > 0 {
            p[0]
        } else {
            0
        };
        let amount = if first == 0 {
            1
        } else {
            first
        };
        if cmd == 'A' {
            self.row = self.row.saturating_sub(amount);
        } else if cmd == 'B' {
            self.row = self.row.saturating_add(amount);
            ensure_row_exec(&mut self.lines, self.row);
        } else if cmd == 'C' {
            let c = self.col.saturating_add(amount);
            self.col = if c <= last {
                c
            } else {
                last
            };
        } else if cmd == 'D' {
            self.col = self.col.saturating_sub(amount);
        } else if cmd == 'E' {
            self.row = self.row.saturating_add(amount);
            ensure_row_exec(&mut self.lines, self.row);
            self.col = 0;
        } else if cmd == 'F' {
            self.row = self.row.saturating_sub(amount);
            self.col = 0;
        } else if cmd == 'G' {
            let c = amount.saturating_sub(1);
            self.col = if c <= last {
                c
            } else {
                last
            };
        } else if cmd == 'H' || cmd == 'f' {
            let r0 = if p.len() > 0 {
                p[0]
            } else {
                1
            };
            let c0 = if p.len() > 1 {
                p[1]
            } else {
                1
            };
            let r = (if r0 == 0 {
                1
            } else {
                r0
            }).saturating_sub(1);
            let c = (if c0 == 0 {
                1
            } else {
                c0
            }).saturating_sub(1);
            self.row = r;
            self.col = if c <= last {
                c
            } else {
                last
            };
            ensure_row_exec(&mut self.lines, self.row);
        } else if cmd == 'J' {
            if first == 2 || first == 3 {
                let mut fresh: Vec<Vec<Cell>> = Vec::new();
                fresh.push(Vec::new());
                self.lines = fresh;
                self.row = 0;
                self.col = 0;
                proof {
                    assert(grid(self.lines@) =~= seq![Seq::<Cell>::empty()]);
                }
            }
        } else if cmd == 'K' {
            ensure_row_exec(&mut self.lines, self.row);
            let line = copy_line(&self.lines[self.row]);
            let erased = erase_line_exec(line, first, self.col, self.style);
            set_line(&mut self.lines, self.row, erased);
        } else if cmd == 's' {
            self.saved = (self.row, self.col);
        } else if cmd == 'u' {
            self.row = self.saved.0;
            self.col = self.saved.1;
            ensure_row_exec(&mut self.lines, self.row);
        } else if cmd == 'm' {
            self.style = apply_sgr_exec(p, self.style);
        }
    }
}

fn erase_line_exec(line: Vec<Cell>, mode: usize, col: usize, style: CellStyle) -> (r: Vec<Cell>)
    ensures
        r@ == erase_line(line@, mode, col, style),
{
    if mode == 0 {
        let ghost orig = line@;
        let mut line = line;
        if col < line.len() {
            line.truncate(col);
            proof {
                assert(line@ =~= orig.take(col as int));
            }
        }
        line
    } else if mode == 1 {
        let ghost orig = line@;
        let mut line = line;
        let mut k: usize = 0;
        while k < col && k < line.len()
            invariant
                line@.len() == orig.len(),
                k <= line@.len(),
                k <= col,
                forall|j: int| 0 <= j < k ==> #[trigger] line@[j] == (Cell { ch: ' ', style: style }),
                forall|j: int| k <= j < line@.len() ==> #[trigger] line@[j] == orig[j],
            decreases line.len() - k,
        {
            line.set(k, Cell { ch: ' ', style: style });
            k = k + 1;
        }
        proof {
            let want = erase_line(orig, mode, col, style);
            assert(want.len() == line@.len());
            assert forall|j: int| 0 <= j < line@.len() implies line@[j] == want[j] by {
                if j < k {
                    assert(line@[j] == (Cell { ch: ' ', style: style }));
                } else {
                    assert(line@[j] == orig[j]);
                }
            }
            assert(line@ =~= want);
        }
        line
    } else if mode == 2 {
        Vec::new()
    } else {
        line
    }
}

fn osc_end_exec(chars: &Vec<char>, from: usize) -> (r: usize)
    requires
        from <= chars.len(),
    ensures
        r as int == osc_end(chars@, from as int),
        from <= r <= chars.len(),
{
    let n = chars.len();
    let mut k = from;
    while k < n
        invariant
            from <= k <= n,
            n == chars.len(),
            osc_end(chars@, k as int) == osc_end(chars@, from as int),
        decreases n - k,
    {
        if chars[k] == '\u{7}' {
            return k + 1;
        }
        if chars[k] == '\u{1b}' && k + 1 < n && chars[k + 1] == '\\' {
            return k + 2;
        }
        k = k + 1;
    }
    n
}

fn is_final_exec(c: char) -> (r: bool)
    ensures
        r == csi_final()(c),
{
    ('a' <= c && c <= 'z') || ('A' <= c && c <= 'Z') || c == '~'
}

impl Emulator {
    /// Replays the input at `i`: where the scan goes on, or `None` where it
    /// stops.
    fn step(&mut self, chars: &Vec<char>, i: usize, width: usize) -> (r: Option<usize>)
        requires
            i < chars.len(),
        ensures
            match r {
                None => step(chars@, i as int, old(self)@, width) is None && final(self)@ == old(self)@,
                Some(j) => step(chars@, i as int, old(self)@, width) == Some((j as int, final(self)@))
                    && i < j <= chars.len(),
            },
    {
        let len = chars.len();
        let ch = chars[i];
        let n = i + 1;
        if ch == '\u{1b}' {
            if n >= len {
                return None;
            }
            if chars[n] == '[' {
                let private = n + 1 < len && (chars[n + 1] == '?' || chars[n + 1] == '>' || chars[n
                    + 1] == '=');
                let start = if private {
                    n + 2
                } else {
                    n + 1
                };
                let ghost rest = chars@.skip(start as int);
                let mut e = start;
                while e < len && !is_final_exec(chars[e])
                    invariant
                        start <= e <= len,
                        len == chars.len(),
                        rest == chars@.skip(start as int),
                        forall|j: int| 0 <= j < e - start ==> !csi_final()(#[trigger] rest[j]),
                    decreases len - e,
                {
                    e = e + 1;
                }
                if e >= len {
                    proof {
                        crate::text::lemma_first_index_none(rest, csi_final());
                    }
                    return None;
                }
                proof {
                    assert(rest[e - start] == chars@[e as int]);
                    crate::text::lemma_first_index_is(rest, csi_final(), e - start);
                }
                let params = parse_csi_params(chars, start, e);
                if private {
                    let first = if params.len() > 0 {
                        params[0]
                    } else {
                        0
                    };
                    if first == 25 && chars[e] == 'h' {
                        self.cursor_visible = true;
                    } else if first == 25 && chars[e] == 'l' {
                        self.cursor_visible = false;
                    }
                } else {
                    self.apply_csi(chars[e], &params, width);
                }
                return Some(e + 1);
            } else if chars[n] == ']' {
                return Some(osc_end_exec(chars, n + 1));
            } else {
                return Some(n + 1);
            }
        } else if ch == '\r' {
            self.col = 0;
        } else if ch == '\n' {
            self.row = self.row.saturating_add(1);
            ensure_row_exec(&mut self.lines, self.row);
            self.col = 0;
        } else if ch == '\u{8}' {
            self.col = self.col.saturating_sub(1);
        } else if ch == '\t' {
            self.fill_tab(width);
        } else {
            let u: u32 = ch as u32;
            if u <= 0x1f || (0x7f <= u && u <= 0x9f) {
            } else {
                self.put_char(ch, width);
            }
        }
        Some(n)
    }
}

/// Replays a pane's output onto a grid `width` columns wide.
pub fn parse_terminal_snapshot(raw: &str, width: usize) -> (r: ParsedTerminal)
    ensures
        ({
            let s = run(raw@, 0, fresh_screen(), width);
            &&& grid(r.lines@) == s.lines
            &&& r.cursor_row == s.row
            &&& r.cursor_col == s.col
            &&& r.cursor_visible == s.cursor_visible
        }),
{
    let chars = chars_of(raw);
    let mut lines: Vec<Vec<Cell>> = Vec::new();
    lines.push(Vec::new());
    let mut em = Emulator {
        lines: lines,
        row: 0,
        col: 0,
        saved: (0, 0),
        style: plain_style(),
        cursor_visible: true,
    };
    proof {
        assert(grid(em.lines@) =~= seq![Seq::<Cell>::empty()]);
        assert(em@ == fresh_screen());
    }
    let ghost target = run(chars@, 0, fresh_screen(), width);
    let mut i: usize = 0;
    let mut done = false;
    while i < chars.len() && !done
        invariant
            i <= chars.len(),
            chars@ == raw@,
            target == run(chars@, 0, fresh_screen(), width),
            done ==> em@ == target,
            !done ==> run(chars@, i as int, em@, width) == target,
        decreases chars.len() - i + (if done { 0int } else { 1int }),
    {
        let ghost before = em@;
        match em.step(&chars, i, width) {
            None => {
                done = true;
            },
            Some(j) => {
                proof {
                    assert(run(chars@, i as int, before, width) == run(chars@, j as int, em@, width));
                }
                i = j;
            },
        }
    }
    ParsedTerminal {
        lines: em.lines,
        cursor_row: em.row,
        cursor_col: em.col,
        cursor_visible: em.cursor_visible,
    }
}

// ---------------------------------------------------------------------------
// What a pane shows
// ---------------------------------------------------------------------------

/// A line of plain cells holding `s`.
pub open spec fn plain_cells(s: Seq<char>) -> Seq<Cell>
    decreases s.len(),
{
    if s.len() == 0 {
        seq![]
    } else {
        plain_cells(s.drop_last()).push(Cell { ch: s.last(), style: plain() })
    }
}

/// A line of plain cells holding `s`.
pub fn styled_from_str(s: &str) -> (r: Vec<Cell>)
    ensures
        r@ == plain_cells(s@),
{
    let chars = chars_of(s);
    let mut out: Vec<Cell> = Vec::new();
    let mut i: usize = 0;
    proof {
        assert(plain_cells(chars@.take(0)) =~= out@);
    }
    while i < chars.len()
        invariant
            i <= chars.len(),
            chars@ == s@,
            out@ == plain_cells(chars@.take(i as int)),
        decreases chars.len() - i,
    {
        let ghost prev = out@;
        let cell = Cell { ch: chars[i], style: plain_style() };
        out.push(cell);
        proof {
            assert(chars@.take(i + 1).drop_last() =~= chars@.take(i as int));
            assert(out@ =~= plain_cells(chars@.take(i + 1)));
        }
        i = i + 1;
    }
    proof {
        assert(chars@.take(i as int) =~= chars@);
    }
    out
}

/// Whether every cell of a grid holds a space.
pub open spec fn all_blank(g: Seq<Seq<Cell>>) -> bool {
    forall|i: int, j: int| 0 <= i < g.len() && 0 <= j < g[i].len() ==> #[trigger] g[i][j].ch == ' '
}

/// The rows a pane shows and the cursor within them: the last `max_lines`
/// rows of its replayed output, `scroll` rows up from the bottom; a pane
/// whose output shows nothing says that its shell is starting.
pub open spec fn rendered_pane(raw: Seq<char>, width: usize, max_lines: usize, scroll: usize) -> (
    Seq<Seq<Cell>>,
    Option<(usize, usize)>,
) {
    let s = run(raw, 0, fresh_screen(), if width >= 20 {
        width
    } else {
        20
    });
    let lines = s.lines;
    if lines.len() == 0 || all_blank(lines) {
        (seq![plain_cells("<starting shell...>"@)], None)
    } else {
        let offset = min_of(scroll, (lines.len() - 1) as usize);
        let end = lines.len() - offset;
        let start = if end >= max_lines {
            end - max_lines
        } else {
            0
        };
        (
            lines.subrange(start, end),
            if s.cursor_visible && start <= s.row && s.row < end {
                Some(((s.row - start) as usize, min_of(s.col, sat_sub(width, 1))))
            } else {
                None
            },
        )
    }
}

/// What a pane shows: its rows of cells and the cursor within them.
pub struct RenderedPane {
    pub lines: Vec<Vec<Cell>>,
    pub cursor: Option<(usize, usize)>,
}

fn all_blank_exec(g: &Vec<Vec<Cell>>) -> (r: bool)
    ensures
        r == all_blank(grid(g@)),
{
    let mut i: usize = 0;
    while i < g.len()
        invariant
            i <= g.len(),
            forall|a: int, b: int| 0 <= a < i && 0 <= b < grid(g@)[a].len() ==> #[trigger] grid(g@)[a][b].ch == ' ',
        decreases g.len() - i,
    {
        let mut j: usize = 0;
        while j < g[i].len()
            invariant
                i < g.len(),
                j <= g[i as int]@.len(),
                forall|a: int, b: int| 0 <= a < i && 0 <= b < grid(g@)[a].len() ==> #[trigger] grid(g@)[a][b].ch == ' ',
                forall|b: int| 0 <= b < j ==> #[trigger] grid(g@)[i as int][b].ch == ' ',
            decreases g[i as int]@.len() - j,
        {
            if g[i][j].ch != ' ' {
                proof {
                    assert(grid(g@)[i as int][j as int].ch != ' ');
                }
                return false;
            }
            j = j + 1;
        }
        i = i + 1;
    }
    true
}

/// What a pane shows, `width` columns wide and at most `max_lines` rows
/// high, `scroll_offset` rows up from the bottom of its output.
pub fn render_terminal_styled(raw: &str, width: usize, max_lines: usize, scroll_offset: usize) -> (r: RenderedPane)
    ensures
        (grid(r.lines@), r.cursor) == rendered_pane(raw@, width, max_lines, scroll_offset),
{
    let parsed = parse_terminal_snapshot(raw, if width >= 20 {
        width
    } else {
        20
    });
    let lines = parsed.lines;
    if lines.len() == 0 || all_blank_exec(&lines) {
        let mut v: Vec<Vec<Cell>> = Vec::new();
        v.push(styled_from_str("<starting shell...>"));
        proof {
            assert(grid(v@) =~= seq![plain_cells("<starting shell...>"@)]);
        }
        return RenderedPane { lines: v, cursor: None };
    }
    let max_scroll = lines.len() - 1;
    let offset = if scroll_offset <= max_scroll {
        scroll_offset
    } else {
        max_scroll
    };
    let end = lines.len() - offset;
    let start = end.saturating_sub(max_lines);
    let last = width.saturating_sub(1);
    let cursor = if parsed.cursor_visible && parsed.cursor_row >= start && parsed.cursor_row < end {
        Some((parsed.cursor_row - start, if parsed.cursor_col <= last {
            parsed.cursor_col
        } else {
            last
        }))
    } else {
        None
    };
    let mut out: Vec<Vec<Cell>> = Vec::new();
    let mut k: usize = start;
    while k < end
        invariant
            start <= k <= end <= lines.len(),
            grid(out@) == grid(lines@).subrange(start as int, k as int),
        decreases end - k,
    {
        let ghost before = grid(out@);
        out.push(copy_line(&lines[k]));
        proof {
            assert(grid(out@) =~= before.push(grid(lines@)[k as int]));
            assert(grid(lines@).subrange(start as int, k + 1) =~= grid(lines@).subrange(
                start as int,
                k as int,
            ).push(grid(lines@)[k as int]));
        }
        k = k + 1;
    }
    RenderedPane { lines: out, cursor: cursor }
}

/// The placeholder line of a pane with nothing to show: a shell that has
/// neither read nor written anything is starting, else the pane is empty.
pub open spec fn placeholder(last_input: Option<Seq<char>>, last_output: Option<Seq<char>>) -> Seq<Cell> {
    let no_input = match last_input {
        Some(s) => s.len() == 0,
        None => true,
    };
    let no_output = match last_output {
        Some(s) => s.len() == 0,
        None => true,
    };
    if no_input && no_output {
        plain_cells("<starting shell...>"@)
    } else {
        plain_cells("<empty>"@)
    }
}

/// The placeholder line of a pane with nothing to show.
pub fn pane_placeholder_line(pane: &crate::proto::PaneInfo) -> (r: Vec<Cell>)
    ensures
        r@ == placeholder(pane@.last_input, pane@.last_output),
{
    let no_input = match &pane.last_input {
        Some(s) => crate::text::str_is_empty(s.as_str()),
        None => true,
    };
    let no_output = match &pane.last_output {
        Some(s) => crate::text::str_is_empty(s.as_str()),
        None => true,
    };
    if no_input && no_output {
        styled_from_str("<starting shell...>")
    } else {
        styled_from_str("<empty>")
    }
}

/// A colour name folded for lookup: ASCII letters in lower case, and the
/// Kelvin sign as the `k` it lower-cases to.
pub open spec fn fold_name_char(c: char) -> char {
    if c == '\u{212A}' {
        'k'
    } else {
        crate::text::ascii_lower(c)
    }
}

/// The colour a configuration names, case aside.
pub open spec fn color_named(s: Seq<char>) -> Option<Color> {
    let k = s.map_values(|c: char| fold_name_char(c));
    if k == "black"@ {
        Some(Color::Black)
    } else if k == "red"@ {
        Some(Color::DarkRed)
    } else if k == "green"@ {
        Some(Color::DarkGreen)
    } else if k == "yellow"@ {
        Some(Color::DarkYellow)
    } else if k == "blue"@ {
        Some(Color::DarkBlue)
    } else if k == "magenta"@ {
        Some(Color::DarkMagenta)
    } else if k == "cyan"@ {
        Some(Color::DarkCyan)
    } else if k == "white"@ {
        Some(Color::White)
    } else if k == "grey"@ || k == "gray"@ {
        Some(Color::DarkGrey)
    } else if k == "brightred"@ {
        Some(Color::Red)
    } else if k == "brightgreen"@ {
        Some(Color::Green)
    } else if k == "brightyellow"@ {
        Some(Color::Yellow)
    } else if k == "brightblue"@ {
        Some(Color::Blue)
    } else if k == "brightmagenta"@ {
        Some(Color::Magenta)
    } else if k == "brightcyan"@ {
        Some(Color::Cyan)
    } else {
        None
    }
}

/// The colour a configuration names, case aside.
pub fn parse_color_name(s: &str) -> (r: Option<Color>)
    ensures
        r == color_named(s@),
{
    let chars = chars_of(s);
    let mut k = String::new();
    let mut i: usize = 0;
    while i < chars.len()
        invariant
            i <= chars.len(),
            chars@ == s@,
            k@ == chars@.take(i as int).map_values(|c: char| fold_name_char(c)),
        decreases chars.len() - i,
    {
        let c = chars[i];
        let d = if c == '\u{212A}' {
            'k'
        } else if 'A' <= c && c <= 'Z' {
            let b: u8 = c as u8;
            (b + 32) as char
        } else {
            c
        };
        crate::text::push_char(&mut k, d);
        proof {
            assert(k@ =~= chars@.take(i + 1).map_values(|c: char| fold_name_char(c)));
        }
        i = i + 1;
    }
    proof {
        assert(chars@.take(i as int) =~= chars@);
    }
    let t = k.as_str();
    if crate::text::str_eq(t, "black") {
        Some(Color::Black)
    } else if crate::text::str_eq(t, "red") {
        Some(Color::DarkRed)
    } else if crate::text::str_eq(t, "green") {
        Some(Color::DarkGreen)
    } else if crate::text::str_eq(t, "yellow") {
        Some(Color::DarkYellow)
    } else if crate::text::str_eq(t, "blue") {
        Some(Color::DarkBlue)
    } else if crate::text::str_eq(t, "magenta") {
        Some(Color::DarkMagenta)
    } else if crate::text::str_eq(t, "cyan") {
        Some(Color::DarkCyan)
    } else if crate::text::str_eq(t, "white") {
        Some(Color::White)
    } else if crate::text::str_eq(t, "grey") || crate::text::str_eq(t, "gray") {
        Some(Color::DarkGrey)
    } else if crate::text::str_eq(t, "brightred") {
        Some(Color::Red)
    } else if crate::text::str_eq(t, "brightgreen") {
        Some(Color::Green)
    } else if crate::text::str_eq(t, "brightyellow") {
        Some(Color::Yellow)
    } else if crate::text::str_eq(t, "brightblue") {
        Some(Color::Blue)
    } else if crate::text::str_eq(t, "brightmagenta") {
        Some(Color::Magenta)
    } else if crate::text::str_eq(t, "brightcyan") {
        Some(Color::Cyan)
    } else {
        None
    }
}

// ---------------------------------------------------------------------------
// Replaying plain output
// ---------------------------------------------------------------------------

/// Whether `t` holds no control character.
pub open spec fn control_free(t: Seq<char>) -> bool {
    forall|i: int| 0 <= i < t.len() ==> !crate::display::is_control(#[trigger] t[i])
}

/// Whether a grid is one line that shows the characters of `t`, each in
/// the plain style.
pub open spec fn shows_plain_line(lines: Seq<Seq<Cell>>, t: Seq<char>) -> bool {
    &&& lines.len() == 1
    &&& lines[0].len() == t.len()
    &&& forall|i: int| 0 <= i < t.len() ==> (#[trigger] lines[0][i]).ch == t[i] && lines[0][i].style == plain()
}

/// Whether `s` is the screen once the first `k` characters of `t` are
/// replayed onto a fresh one.
pub open spec fn typed_so_far(s: Screen, t: Seq<char>, k: int) -> bool {
    &&& shows_plain_line(s.lines, t.take(k))
    &&& s.row == 0
    &&& s.col == k
    &&& s.style == plain()
}

proof fn char_at(t: Seq<char>, k: int) -> (c: char)
    requires
        0 <= k < t.len(),
    ensures
        c == t[k],
{
    t[k]
}

proof fn lemma_replay_from(t: Seq<char>, k: int, s: Screen, width: usize)
    requires
        0 <= k <= t.len(),
        t.len() <= width,
        control_free(t),
        typed_so_far(s, t, k),
    ensures
        typed_so_far(run(t, k, s, width), t, t.len() as int),
    decreases t.len() - k,
{
    if k < t.len() {
        let ch = char_at(t, k);
        assert(!crate::display::is_control(ch));
        let p = put_char(s, ch, width);
        assert(step(t, k, s, width) == Some((k + 1, p)));
        let line = s.lines[0];
        assert(s.lines.len() == 1);
        assert(ensure_row(s.lines, 0) == s.lines);
        assert(line.len() == s.col);
        assert(p.lines.len() == 1);
        assert(p.lines[0].len() == k + 1);
        assert(p.lines[0][k].ch == ch);
        assert forall|i: int| 0 <= i < k + 1 implies (#[trigger] p.lines[0][i]).ch == t.take(k + 1)[i]
            && p.lines[0][i].style == plain() by {
            if i < k {
                assert(p.lines[0][i] == line[i]);
                assert(line[i].ch == t.take(k)[i]);
            }
        }
        assert(typed_so_far(p, t, k + 1));
        lemma_replay_from(t, k + 1, p, width);
    }
}

/// Output without control characters that fits the width replays as one
/// line of those characters in the plain style, the cursor after the last.
pub proof fn law_plain_output_replays(t: Seq<char>, width: usize)
    requires
        t.len() <= width,
        control_free(t),
    ensures
        shows_plain_line(run(t, 0, fresh_screen(), width).lines, t),
        run(t, 0, fresh_screen(), width).row == 0,
        run(t, 0, fresh_screen(), width).col == t.len(),
{
    let f = fresh_screen();
    assert(f.lines.len() == 1);
    assert(f.lines[0].len() == 0);
    assert(typed_so_far(f, t, 0));
    lemma_replay_from(t, 0, f, width);
    assert(t.take(t.len() as int) =~= t);
}

} // verus!
