//! Terminal state: the screen, the cursor, the text attributes and the
//! scrolling region, driven by the actions that the escape-sequence parser
//! produces.
use vstd::prelude::*;
use crate::terminal::buffer::{Cell, CellModel, ScreenBuffer, ScreenModel, blank_cell, lemma_screen_ops_keep_shape};
use crate::terminal::parser::{VtAction, VtCollector, VtParser, advance, create_parser, lemma_vt_output_concat, vt_output};

verus! {

/// Cursor state
#[derive(Debug, Clone, Copy, PartialEq, Eq, Structural)]
pub struct Cursor {
    pub row: u16,
    pub col: u16,
    pub visible: bool,
}

/// The cursor at the top left corner, visible.
pub open spec fn home_cursor() -> Cursor {
    Cursor { row: 0, col: 0, visible: true }
}

impl Default for Cursor {
    fn default() -> (c: Cursor)
        ensures
            c == home_cursor(),
    {
        Cursor { row: 0, col: 0, visible: true }
    }
}

/// Text attributes
#[derive(Debug, Clone, Copy, PartialEq, Eq, Structural)]
pub struct TextAttrs {
    pub fg: u8,
    pub bg: u8,
    pub bold: bool,
    pub italic: bool,
    pub underline: bool,
    pub inverse: bool,
    pub strikethrough: bool,
}

/// Colour 0 on colour 0, no style.
pub open spec fn plain_attrs() -> TextAttrs {
    TextAttrs {
        fg: 0,
        bg: 0,
        bold: false,
        italic: false,
        underline: false,
        inverse: false,
        strikethrough: false,
    }
}

impl Default for TextAttrs {
    fn default() -> (a: TextAttrs)
        ensures
            a == plain_attrs(),
    {
        TextAttrs {
            fg: 0,
            bg: 0,
            bold: false,
            italic: false,
            underline: false,
            inverse: false,
            strikethrough: false,
        }
    }
}

/// `v` when `b` holds, else 0.
pub open spec fn flag_bit(b: bool, v: int) -> int {
    if b {
        v
    } else {
        0
    }
}

impl TextAttrs {
    /// The style flags as one byte: bold 1, italic 2, underline 4, inverse 8,
    /// strikethrough 16.
    pub open spec fn flags_spec(self) -> u8 {
        (flag_bit(self.bold, 1) + flag_bit(self.italic, 2) + flag_bit(self.underline, 4)
            + flag_bit(self.inverse, 8) + flag_bit(self.strikethrough, 16)) as u8
    }

    pub fn to_flags(&self) -> (flags: u8)
        ensures
            flags == self.flags_spec(),
    {
        let mut flags = 0u8;
        if self.bold {
            assert(0u8 | 1u8 == 1u8) by (bit_vector);
            flags |= 1;
        }
        assert(flags == flag_bit(self.bold, 1) && flags < 2);
        if self.italic {
            assert(flags < 2 ==> (flags | 2) == flags + 2) by (bit_vector);
            flags |= 2;
        }
        assert(flags == flag_bit(self.bold, 1) + flag_bit(self.italic, 2) && flags < 4);
        if self.underline {
            assert(flags < 4 ==> (flags | 4) == flags + 4) by (bit_vector);
            flags |= 4;
        }
        assert(flags == flag_bit(self.bold, 1) + flag_bit(self.italic, 2) + flag_bit(self.underline, 4)
            && flags < 8);
        if self.inverse {
            assert(flags < 8 ==> (flags | 8) == flags + 8) by (bit_vector);
            flags |= 8;
        }
        assert(flags == flag_bit(self.bold, 1) + flag_bit(self.italic, 2) + flag_bit(self.underline, 4)
            + flag_bit(self.inverse, 8) && flags < 16);
        if self.strikethrough {
            assert(flags < 16 ==> (flags | 16) == flags + 16) by (bit_vector);
            flags |= 16;
        }
        flags
    }
}

/// The smaller of two values.
pub open spec fn min16(a: u16, b: u16) -> u16 {
    if a <= b {
        a
    } else {
        b
    }
}

fn min_u16(a: u16, b: u16) -> (m: u16)
    ensures
        m == min16(a, b),
{
    if a <= b {
        a
    } else {
        b
    }
}

/// The first value of parameter group `i`, or `d` when there is none.
pub open spec fn param_or(ps: Seq<Seq<u16>>, i: int, d: u16) -> u16 {
    if 0 <= i < ps.len() && ps[i].len() > 0 {
        ps[i][0]
    } else {
        d
    }
}

/// A 1-based position parameter as a 0-based index; a 0 parameter counts as
/// the default `d`, as an absent one does.
pub open spec fn index_param(p: u16, d: u16) -> u16 {
    if p == 0 {
        d.saturating_sub(1)
    } else {
        (p - 1) as u16
    }
}

fn index_from_param(p: u16, d: u16) -> (i: u16)
    ensures
        i == index_param(p, d),
{
    if p == 0 {
        d.saturating_sub(1)
    } else {
        p - 1
    }
}

/// Parameter groups as values.
pub open spec fn params_model(ps: Seq<Vec<u16>>) -> Seq<Seq<u16>> {
    ps.map_values(|g: Vec<u16>| g@)
}

/// The effect of one SGR parameter other than 38 and 48.
pub open spec fn sgr_param(a: TextAttrs, p: u16) -> TextAttrs {
    if p == 0 {
        plain_attrs()
    } else if p == 1 {
        TextAttrs { bold: true, ..a }
    } else if p == 3 {
        TextAttrs { italic: true, ..a }
    } else if p == 4 {
        TextAttrs { underline: true, ..a }
    } else if p == 7 {
        TextAttrs { inverse: true, ..a }
    } else if p == 9 {
        TextAttrs { strikethrough: true, ..a }
    } else if p == 22 {
        TextAttrs { bold: false, ..a }
    } else if p == 23 {
        TextAttrs { italic: false, ..a }
    } else if p == 24 {
        TextAttrs { underline: false, ..a }
    } else if p == 27 {
        TextAttrs { inverse: false, ..a }
    } else if p == 29 {
        TextAttrs { strikethrough: false, ..a }
    } else if 30 <= p <= 37 {
        TextAttrs { fg: (p - 30) as u8, ..a }
    } else if p == 39 {
        TextAttrs { fg: 7, ..a }
    } else if 40 <= p <= 47 {
        TextAttrs { bg: (p - 40) as u8, ..a }
    } else if p == 49 {
        TextAttrs { bg: 0, ..a }
    } else if 90 <= p <= 97 {
        TextAttrs { fg: (p - 90 + 8) as u8, ..a }
    } else if 100 <= p <= 107 {
        TextAttrs { bg: (p - 100 + 8) as u8, ..a }
    } else {
        a
    }
}

/// Sets the foreground (38) or background (48) colour to `c`.
pub open spec fn sgr_extended(a: TextAttrs, p: u16, c: u16) -> TextAttrs {
    if p == 38 {
        TextAttrs { fg: c as u8, ..a }
    } else {
        TextAttrs { bg: c as u8, ..a }
    }
}

/// Applies the parameters `cur[j..]` of the current group, then the groups
/// from `next` on. An extended colour (38 or 48) takes the group after it as
/// its selector and, when that selector is 5, the group after that as its
/// colour index.
pub open spec fn sgr_walk(a: TextAttrs, groups: Seq<Seq<u16>>, next: int, cur: Seq<u16>, j: int) -> TextAttrs
    decreases groups.len() - next, cur.len() - j,
{
    if 0 <= j < cur.len() {
        let p = cur[j];
        if p == 38 || p == 48 {
            if 0 <= next < groups.len() {
                let sel = groups[next];
                if sel.len() > 0 && sel[0] == 5 {
                    if next + 1 < groups.len() {
                        let cg = groups[next + 1];
                        let a2 = if cg.len() > 0 {
                            sgr_extended(a, p, cg[0])
                        } else {
                            a
                        };
                        sgr_walk(a2, groups, next + 2, cur, j + 1)
                    } else {
                        sgr_walk(a, groups, next + 1, cur, j + 1)
                    }
                } else {
                    sgr_walk(a, groups, next + 1, cur, j + 1)
                }
            } else {
                sgr_walk(a, groups, next, cur, j + 1)
            }
        } else {
            sgr_walk(sgr_param(a, p), groups, next, cur, j + 1)
        }
    } else if 0 <= next < groups.len() {
        sgr_walk(a, groups, next + 1, groups[next], 0)
    } else {
        a
    }
}

/// The attributes after an SGR sequence with parameter groups `groups`.
pub open spec fn sgr(a: TextAttrs, groups: Seq<Seq<u16>>) -> TextAttrs {
    sgr_walk(a, groups, 0, Seq::empty(), 0)
}

/// Terminal state as values.
#[verifier::ext_equal]
pub struct TermModel {
    pub screen: ScreenModel,
    pub cursor: Cursor,
    pub attrs: TextAttrs,
    pub saved_cursor: Cursor,
    pub scroll_top: u16,
    pub scroll_bottom: u16,
    /// The bytes fed to the parser so far.
    pub fed: Seq<u8>,
}

impl TermModel {
    /// The screen has its declared shape and at least one line.
    pub open spec fn wf(self) -> bool {
        self.screen.wf() && self.screen.rows >= 1
    }

    /// A fresh terminal: empty screen, cursor home, plain attributes, the
    /// scrolling region the whole screen.
    pub open spec fn fresh(cols: u16, rows: u16) -> TermModel {
        TermModel {
            screen: ScreenModel::fresh(cols, rows),
            cursor: home_cursor(),
            attrs: plain_attrs(),
            saved_cursor: home_cursor(),
            scroll_top: 0,
            scroll_bottom: (rows - 1) as u16,
            fed: Seq::empty(),
        }
    }

    pub open spec fn with_fed(self, fed: Seq<u8>) -> TermModel {
        TermModel { fed, ..self }
    }

    /// The terminal after the parser is fed `data`: the actions that the bytes
    /// produce, read after what was fed before, performed in order.
    pub open spec fn feed(self, data: Seq<u8>) -> TermModel {
        self.apply_all(vt_output(self.fed, data)).with_fed(self.fed + data)
    }

    pub open spec fn with_cursor(self, c: Cursor) -> TermModel {
        TermModel { cursor: c, ..self }
    }

    pub open spec fn with_attrs(self, a: TextAttrs) -> TermModel {
        TermModel { attrs: a, ..self }
    }

    pub open spec fn with_screen(self, s: ScreenModel) -> TermModel {
        TermModel { screen: s, ..self }
    }

    /// Resized screen; the scrolling region ends at the last row and the
    /// cursor is pulled back inside the screen.
    pub open spec fn resized(self, cols: u16, rows: u16) -> TermModel {
        TermModel {
            screen: self.screen.resized(cols, rows),
            scroll_bottom: (rows - 1) as u16,
            cursor: Cursor {
                row: if self.cursor.row >= rows { (rows - 1) as u16 } else { self.cursor.row },
                col: if self.cursor.col >= cols { (cols - 1) as u16 } else { self.cursor.col },
                ..self.cursor
            },
            ..self
        }
    }

    /// At or below the bottom of the scrolling region the screen scrolls up;
    /// otherwise the cursor moves down a row.
    pub open spec fn line_feed(self) -> TermModel {
        if self.cursor.row >= self.scroll_bottom {
            TermModel { screen: self.screen.scrolled_up(), ..self }
        } else {
            self.with_cursor(Cursor { row: (self.cursor.row + 1) as u16, ..self.cursor })
        }
    }

    /// The cell that printing `c` writes.
    pub open spec fn styled(self, c: char) -> CellModel {
        CellModel { ch: seq![c], fg: self.attrs.fg, bg: self.attrs.bg, flags: self.attrs.flags_spec() }
    }

    /// Writes `c` at the cursor when the cursor is on the screen, then moves
    /// right; past the last column the cursor wraps to the next line.
    pub open spec fn put_char(self, c: char) -> TermModel {
        let row = self.cursor.row as int;
        let col = self.cursor.col as int;
        let screen = if self.cursor.col < self.screen.cols && self.screen.in_bounds(row, col) {
            self.screen.with_cell(row, col, self.styled(c))
        } else {
            self.screen
        };
        let next = self.cursor.col.saturating_add(1);
        if next >= self.screen.cols {
            TermModel { screen, cursor: Cursor { col: 0, ..self.cursor }, ..self }.line_feed()
        } else {
            TermModel { screen, cursor: Cursor { col: next, ..self.cursor }, ..self }
        }
    }

    pub open spec fn carriage_return(self) -> TermModel {
        self.with_cursor(Cursor { col: 0, ..self.cursor })
    }

    pub open spec fn backspace(self) -> TermModel {
        if self.cursor.col > 0 {
            self.with_cursor(Cursor { col: (self.cursor.col - 1) as u16, ..self.cursor })
        } else {
            self
        }
    }

    /// The cursor moves to the next multiple of 8, but not past the last column.
    pub open spec fn tab(self) -> TermModel {
        let next_tab: int = (self.cursor.col / 8 + 1) * 8;
        let last = self.screen.cols.saturating_sub(1);
        self.with_cursor(Cursor { col: if next_tab < last { next_tab as u16 } else { last }, ..self.cursor })
    }

    /// A C0 control byte: backspace, tab, line feed (also VT and FF) and
    /// carriage return act; every other byte is ignored.
    pub open spec fn execute(self, byte: u8) -> TermModel {
        if byte == 0x08 {
            self.backspace()
        } else if byte == 0x09 {
            self.tab()
        } else if byte == 0x0A || byte == 0x0B || byte == 0x0C {
            self.line_feed()
        } else if byte == 0x0D {
            self.carriage_return()
        } else {
            self
        }
    }

    /// A CSI sequence with final character `action`.
    pub open spec fn csi(self, ps: Seq<Seq<u16>>, action: char) -> TermModel {
        let rows = self.screen.rows;
        let cols = self.screen.cols;
        let cur = self.cursor;
        if action == 'A' {
            self.with_cursor(Cursor { row: cur.row.saturating_sub(param_or(ps, 0, 1)), ..cur })
        } else if action == 'B' {
            self.with_cursor(
                Cursor { row: min16(cur.row.saturating_add(param_or(ps, 0, 1)), rows.saturating_sub(1)), ..cur },
            )
        } else if action == 'C' {
            self.with_cursor(
                Cursor { col: min16(cur.col.saturating_add(param_or(ps, 0, 1)), cols.saturating_sub(1)), ..cur },
            )
        } else if action == 'D' {
            self.with_cursor(Cursor { col: cur.col.saturating_sub(param_or(ps, 0, 1)), ..cur })
        } else if action == 'H' || action == 'f' {
            self.with_cursor(
                Cursor {
                    row: min16(index_param(param_or(ps, 0, 1), 1), rows.saturating_sub(1)),
                    col: min16(index_param(param_or(ps, 1, 1), 1), cols.saturating_sub(1)),
                    ..cur
                },
            )
        } else if action == 'J' {
            let n = param_or(ps, 0, 0);
            if n == 0 {
                TermModel {
                    screen: self.screen.cleared_to_eol(cur.row as int, cur.col as int).cleared_rows(
                        cur.row.saturating_add(1) as int,
                        rows as int,
                    ),
                    ..self
                }
            } else if n == 2 {
                TermModel { screen: self.screen.cleared(), ..self }
            } else {
                self
            }
        } else if action == 'K' {
            let n = param_or(ps, 0, 0);
            if n == 0 {
                TermModel { screen: self.screen.cleared_to_eol(cur.row as int, cur.col as int), ..self }
            } else if n == 2 {
                TermModel { screen: self.screen.cleared_to_eol(cur.row as int, 0), ..self }
            } else {
                self
            }
        } else if action == 'm' {
            TermModel { attrs: sgr(self.attrs, ps), ..self }
        } else if action == 'r' {
            TermModel {
                scroll_top: index_param(param_or(ps, 0, 1), 1),
                scroll_bottom: min16(index_param(param_or(ps, 1, rows), rows), rows.saturating_sub(1)),
                cursor: Cursor { row: 0, col: 0, ..cur },
                ..self
            }
        } else if action == 's' {
            TermModel { saved_cursor: cur, ..self }
        } else if action == 'u' {
            self.with_cursor(self.saved_cursor)
        } else {
            self
        }
    }

    /// The effect of one parser action.
    pub open spec fn apply(self, a: VtAction) -> TermModel {
        match a {
            VtAction::Print(c) => self.put_char(c),
            VtAction::Execute(b) => self.execute(b),
            VtAction::CsiDispatch { params, action, .. } => self.csi(params_model(params@), action),
            VtAction::OscDispatch { .. } => self,
        }
    }

    /// The effect of a sequence of parser actions, in order.
    pub open spec fn apply_all(self, acts: Seq<VtAction>) -> TermModel
        decreases acts.len(),
    {
        if acts.len() == 0 {
            self
        } else {
            self.apply_all(acts.drop_last()).apply(acts.last())
        }
    }
}

/// Every action keeps a well-formed terminal well-formed.
pub proof fn lemma_apply_keeps_wf(m: TermModel, a: VtAction)
    requires
        m.wf(),
    ensures
        m.apply(a).wf(),
{
    let r = m.cursor.row as int;
    let c = m.cursor.col as int;
    // the line feeds of print and execute may scroll the screen
    lemma_screen_ops_keep_shape(m.screen, r, c, blank_cell(), 0, 0);
    match a {
        VtAction::Print(ch) => {
            lemma_screen_ops_keep_shape(m.screen, r, c, m.styled(ch), 0, 0);
            let s = if m.cursor.col < m.screen.cols && m.screen.in_bounds(r, c) {
                m.screen.with_cell(r, c, m.styled(ch))
            } else {
                m.screen
            };
            lemma_screen_ops_keep_shape(s, r, c, m.styled(ch), 0, 0);
        },
        VtAction::CsiDispatch { .. } => {
            lemma_screen_ops_keep_shape(m.screen, r, 0, blank_cell(), 0, 0);
            lemma_screen_ops_keep_shape(
                m.screen.cleared_to_eol(r, c),
                r,
                c,
                blank_cell(),
                m.cursor.row.saturating_add(1) as int,
                m.screen.rows as int,
            );
        },
        _ => {},
    }
}

/// Terminal state
pub struct TerminalState {
    pub buffer: ScreenBuffer,
    pub cursor: Cursor,
    pub attrs: TextAttrs,
    pub parser: VtParser,
    pub saved_cursor: Cursor,
    pub scroll_top: u16,
    pub scroll_bottom: u16,
}

impl View for TerminalState {
    type V = TermModel;

    open spec fn view(&self) -> TermModel {
        TermModel {
            screen: self.buffer@,
            cursor: self.cursor,
            attrs: self.attrs,
            saved_cursor: self.saved_cursor,
            scroll_top: self.scroll_top,
            scroll_bottom: self.scroll_bottom,
            fed: self.parser@,
        }
    }
}

/// Whatever the parser produces, a well-formed terminal stays well formed.
pub proof fn law_actions_keep_wf(m: TermModel, acts: Seq<VtAction>)
    requires
        m.wf(),
    ensures
        m.apply_all(acts).wf(),
    decreases acts.len(),
{
    if acts.len() > 0 {
        law_actions_keep_wf(m, acts.drop_last());
        lemma_apply_keeps_wf(m.apply_all(acts.drop_last()), acts.last());
    }
}

/// Restoring the cursor (CSI u) brings back the cursor saved by CSI s,
/// wherever the cursor went in between.
pub proof fn law_save_restore_cursor(m: TermModel, save: Seq<Seq<u16>>, moved: Cursor, restore: Seq<Seq<u16>>)
    ensures
        m.csi(save, 's').with_cursor(moved).csi(restore, 'u').cursor == m.cursor,
{
}

/// The action is a CSI s, which saves the cursor.
pub open spec fn is_save(a: VtAction) -> bool {
    a matches VtAction::CsiDispatch { action, .. } && action == 's'
}

/// Every action but a CSI s leaves the saved cursor alone.
pub proof fn lemma_apply_keeps_saved(m: TermModel, a: VtAction)
    requires
        !is_save(a),
    ensures
        m.apply(a).saved_cursor == m.saved_cursor,
{
}

/// A run of actions with no CSI s leaves the saved cursor alone.
pub proof fn lemma_apply_all_keeps_saved(m: TermModel, acts: Seq<VtAction>)
    requires
        forall|i: int| 0 <= i < acts.len() ==> !is_save(#[trigger] acts[i]),
    ensures
        m.apply_all(acts).saved_cursor == m.saved_cursor,
    decreases acts.len(),
{
    if acts.len() > 0 {
        let init = acts.drop_last();
        assert forall|i: int| 0 <= i < init.len() implies !is_save(#[trigger] init[i]) by {
            assert(init[i] == acts[i]);
        }
        lemma_apply_all_keeps_saved(m, init);
        assert(!is_save(acts[acts.len() - 1]));
        lemma_apply_keeps_saved(m.apply_all(init), acts.last());
    }
}

/// Restoring the cursor (CSI u) brings back the cursor that CSI s saved,
/// whatever actions came in between as long as none of them saves again;
/// the restore changes the cursor and nothing else.
pub proof fn law_restore_after_any_actions(
    m: TermModel,
    save: Seq<Seq<u16>>,
    acts: Seq<VtAction>,
    restore: Seq<Seq<u16>>,
)
    requires
        forall|i: int| 0 <= i < acts.len() ==> !is_save(#[trigger] acts[i]),
    ensures
        m.csi(save, 's').apply_all(acts).csi(restore, 'u') == m.csi(save, 's').apply_all(acts).with_cursor(
            m.cursor,
        ),
{
    lemma_apply_all_keeps_saved(m.csi(save, 's'), acts);
}

/// The terminal after a run of CSI sequences, each given by its parameter
/// groups and final character, in order.
pub open spec fn csi_all(m: TermModel, calls: Seq<(Seq<Seq<u16>>, char)>) -> TermModel
    decreases calls.len(),
{
    if calls.len() == 0 {
        m
    } else {
        csi_all(m, calls.drop_last()).csi(calls.last().0, calls.last().1)
    }
}

/// A run of CSI sequences none of which is CSI s leaves the saved cursor alone.
proof fn lemma_csi_all_keeps_saved(m: TermModel, calls: Seq<(Seq<Seq<u16>>, char)>)
    requires
        forall|i: int| 0 <= i < calls.len() ==> (#[trigger] calls[i]).1 != 's',
    ensures
        csi_all(m, calls).saved_cursor == m.saved_cursor,
    decreases calls.len(),
{
    if calls.len() > 0 {
        let init = calls.drop_last();
        assert forall|i: int| 0 <= i < init.len() implies (#[trigger] init[i]).1 != 's' by {
            assert(init[i] == calls[i]);
        }
        lemma_csi_all_keeps_saved(m, init);
        assert(calls[calls.len() - 1].1 != 's');
    }
}

/// CSI u after CSI s and any number of CSI sequences other than CSI s
/// (cursor motions, positioning, erases, SGR, scrolling regions, restores)
/// brings back the saved cursor and changes nothing but the cursor.
pub proof fn law_restore_after_csi_calls(
    m: TermModel,
    save: Seq<Seq<u16>>,
    calls: Seq<(Seq<Seq<u16>>, char)>,
    restore: Seq<Seq<u16>>,
)
    requires
        forall|i: int| 0 <= i < calls.len() ==> (#[trigger] calls[i]).1 != 's',
    ensures
        csi_all(m.csi(save, 's'), calls).csi(restore, 'u') == csi_all(m.csi(save, 's'), calls).with_cursor(m.cursor),
{
    lemma_csi_all_keeps_saved(m.csi(save, 's'), calls);
}

/// Erase below (CSI J whose first parameter is 0 or absent): every cell of
/// every row below the cursor row becomes the blank cell, the cursor row is
/// blank from the cursor column on and keeps its cells before it, rows above
/// the cursor are unchanged, every row keeps its length, and nothing but the
/// screen's lines changes.
pub proof fn law_erase_below(m: TermModel, ps: Seq<Seq<u16>>)
    requires
        m.wf(),
        ps.len() == 0 || ps[0].len() == 0 || ps[0][0] == 0,
    ensures
        m.csi(ps, 'J').screen.lines.len() == m.screen.lines.len(),
        forall|i: int|
            0 <= i < m.screen.lines.len() ==> (#[trigger] m.csi(ps, 'J').screen.lines[i]).len()
                == m.screen.lines[i].len(),
        forall|i: int, j: int|
            m.cursor.row < i < m.screen.lines.len() && 0 <= j < m.screen.lines[i].len() ==> #[trigger] m.csi(
                ps,
                'J',
            ).screen.lines[i][j] == blank_cell(),
        forall|j: int|
            m.cursor.row < m.screen.lines.len() && m.cursor.col <= j < m.screen.lines[m.cursor.row as int].len()
                ==> #[trigger] m.csi(ps, 'J').screen.lines[m.cursor.row as int][j] == blank_cell(),
        forall|j: int|
            m.cursor.row < m.screen.lines.len() && 0 <= j < m.cursor.col && j < m.screen.lines[m.cursor.row as int].len()
                ==> #[trigger] m.csi(ps, 'J').screen.lines[m.cursor.row as int][j]
                == m.screen.lines[m.cursor.row as int][j],
        forall|i: int| 0 <= i < m.cursor.row && i < m.screen.lines.len() ==> #[trigger] m.csi(ps, 'J').screen.lines[i] == m.screen.lines[i],
        m.csi(ps, 'J').with_screen(m.screen) == m,
{
    let r = m.csi(ps, 'J');
    assert(param_or(ps, 0, 0) == 0);
    let row = m.cursor.row as int;
    assert(r.screen == m.screen.cleared_to_eol(row, m.cursor.col as int).cleared_rows(
        m.cursor.row.saturating_add(1) as int,
        m.screen.rows as int,
    ));
    assert(m.cursor.row < m.screen.lines.len() ==> m.cursor.row.saturating_add(1) == m.cursor.row + 1);
    assert(r.with_screen(m.screen) =~= m);
}

/// Resizing makes the scrolling region end at the new last row, whatever it
/// ended at before, keeps where it starts, and gives the screen the new shape.
pub proof fn law_resize_scroll_region(m: TermModel, cols: u16, rows: u16)
    requires
        rows >= 1,
    ensures
        m.resized(cols, rows).scroll_bottom == rows - 1,
        m.resized(cols, rows).scroll_top == m.scroll_top,
        m.resized(cols, rows).screen.rows == rows,
        m.resized(cols, rows).screen.cols == cols,
        m.resized(cols, rows).cursor.row < rows,
{
}

/// Cursor positioning (CSI H) lands on the screen when it has a cell.
pub proof fn law_cursor_position_on_screen(m: TermModel, ps: Seq<Seq<u16>>)
    requires
        m.screen.rows >= 1,
        m.screen.cols >= 1,
    ensures
        m.csi(ps, 'H').cursor.row < m.screen.rows,
        m.csi(ps, 'H').cursor.col < m.screen.cols,
{
}

/// The cursor motions (CSI A, B, C, D, H and f) keep a cursor that is on
/// the screen on the screen.
pub proof fn law_cursor_motions_stay_on_screen(m: TermModel, ps: Seq<Seq<u16>>, action: char)
    requires
        m.cursor.row < m.screen.rows,
        m.cursor.col < m.screen.cols,
        action == 'A' || action == 'B' || action == 'C' || action == 'D' || action == 'H' || action == 'f',
    ensures
        m.csi(ps, action).cursor.row < m.screen.rows,
        m.csi(ps, action).cursor.col < m.screen.cols,
        m.csi(ps, action).screen == m.screen,
{
}

/// SGR 0 resets the attributes, whatever they were.
pub proof fn law_sgr_reset(a: TextAttrs)
    ensures
        sgr(a, seq![seq![0u16]]) == plain_attrs(),
{
    let g = seq![seq![0u16]];
    assert(sgr_walk(a, g, 0, Seq::empty(), 0) == sgr_walk(a, g, 1, g[0], 0));
    assert(sgr_walk(a, g, 1, g[0], 0) == sgr_walk(plain_attrs(), g, 1, g[0], 1));
}

/// Each style has its own bit in the flags byte.
pub proof fn law_flags_bits(a: TextAttrs)
    ensures
        (a.flags_spec() & 1 != 0) == a.bold,
        (a.flags_spec() & 2 != 0) == a.italic,
        (a.flags_spec() & 4 != 0) == a.underline,
        (a.flags_spec() & 8 != 0) == a.inverse,
        (a.flags_spec() & 16 != 0) == a.strikethrough,
        a.flags_spec() < 32,
{
    let b0: u8 = if a.bold { 1 } else { 0 };
    let b1: u8 = if a.italic { 1 } else { 0 };
    let b2: u8 = if a.underline { 1 } else { 0 };
    let b3: u8 = if a.inverse { 1 } else { 0 };
    let b4: u8 = if a.strikethrough { 1 } else { 0 };
    let f: u8 = a.flags_spec();
    assert(f == b0 + 2 * b1 + 4 * b2 + 8 * b3 + 16 * b4);
    assert(((f & 1 != 0) == (b0 == 1)) && ((f & 2 != 0) == (b1 == 1)) && ((f & 4 != 0) == (b2 == 1)) && ((f & 8
        != 0) == (b3 == 1)) && ((f & 16 != 0) == (b4 == 1)) && f < 32) by (bit_vector)
        requires
            b0 <= 1 && b1 <= 1 && b2 <= 1 && b3 <= 1 && b4 <= 1,
            f == b0 + 2 * b1 + 4 * b2 + 8 * b3 + 16 * b4,
    ;
}

/// Applying two runs of actions one after the other applies their concatenation.
pub proof fn lemma_apply_all_concat(m: TermModel, a: Seq<VtAction>, b: Seq<VtAction>)
    ensures
        m.apply_all(a).apply_all(b) == m.apply_all(a + b),
    decreases b.len(),
{
    if b.len() == 0 {
        assert(a + b =~= a);
    } else {
        lemma_apply_all_concat(m, a, b.drop_last());
        assert((a + b).drop_last() =~= a + b.drop_last());
        assert((a + b).last() == b.last());
    }
}

/// Applying one more action extends the effect of the actions before it.
pub proof fn lemma_apply_all_step(m: TermModel, acts: Seq<VtAction>, k: int)
    requires
        0 <= k < acts.len(),
    ensures
        m.apply_all(acts.take(k + 1)) == m.apply_all(acts.take(k)).apply(acts[k]),
{
    assert(acts.take(k + 1).drop_last() =~= acts.take(k));
}

/// Actions neither read nor change the bytes fed so far.
pub proof fn lemma_apply_with_fed(m: TermModel, a: VtAction, fed: Seq<u8>)
    ensures
        m.with_fed(fed).apply(a) == m.apply(a).with_fed(fed),
        m.apply(a).fed == m.fed,
{
    assert(m.with_fed(fed).apply(a) =~= m.apply(a).with_fed(fed));
}

/// Runs of actions neither read nor change the bytes fed so far.
pub proof fn lemma_apply_all_with_fed(m: TermModel, acts: Seq<VtAction>, fed: Seq<u8>)
    ensures
        m.with_fed(fed).apply_all(acts) == m.apply_all(acts).with_fed(fed),
        m.apply_all(acts).fed == m.fed,
    decreases acts.len(),
{
    if acts.len() > 0 {
        lemma_apply_all_with_fed(m, acts.drop_last(), fed);
        lemma_apply_with_fed(m.apply_all(acts.drop_last()), acts.last(), fed);
    }
}

/// Feeding output keeps a well-formed terminal well formed.
pub proof fn lemma_feed_keeps_wf(m: TermModel, data: Seq<u8>)
    requires
        m.wf(),
    ensures
        m.feed(data).wf(),
{
    law_actions_keep_wf(m, vt_output(m.fed, data));
}

/// Output fed in two chunks leaves the terminal as the same output fed at
/// once does: what the screen shows depends on the bytes, not on how they
/// were split.
pub proof fn law_feed_split(m: TermModel, a: Seq<u8>, b: Seq<u8>)
    ensures
        m.feed(a).feed(b) == m.feed(a + b),
{
    let h = m.fed;
    let x = vt_output(h, a);
    let y = vt_output(h + a, b);
    lemma_vt_output_concat(h, a, b);
    lemma_apply_all_with_fed(m.apply_all(x), y, h + a);
    lemma_apply_all_concat(m, x, y);
    assert((h + a) + b =~= h + (a + b));
    assert(m.feed(a).feed(b) =~= m.feed(a + b));
}

fn param_or_default(params: &Vec<Vec<u16>>, i: usize, d: u16) -> (v: u16)
    ensures
        v == param_or(params_model(params@), i as int, d),
{
    if i < params.len() && params[i].len() > 0 {
        params[i][0]
    } else {
        d
    }
}

impl TerminalState {
    /// The screen has its declared shape and at least one line.
    pub open spec fn wf(&self) -> bool {
        self@.wf()
    }

    pub fn new(cols: u16, rows: u16) -> (t: TerminalState)
        requires
            rows >= 1,
        ensures
            t@ == TermModel::fresh(cols, rows),
            t.wf(),
    {
        TerminalState {
            buffer: ScreenBuffer::new(cols, rows),
            cursor: Cursor::default(),
            attrs: TextAttrs::default(),
            parser: create_parser(),
            saved_cursor: Cursor::default(),
            scroll_top: 0,
            scroll_bottom: rows - 1,
        }
    }

    /// Resize the terminal
    pub fn resize(&mut self, cols: u16, rows: u16)
        requires
            cols >= 1,
            rows >= 1,
        ensures
            final(self)@ == old(self)@.resized(cols, rows),
            final(self).wf(),
            final(self).scroll_bottom == rows - 1,
    {
        self.buffer.resize(cols, rows);
        self.scroll_bottom = rows - 1;
        if self.cursor.row >= rows {
            self.cursor.row = rows - 1;
        }
        if self.cursor.col >= cols {
            self.cursor.col = cols - 1;
        }
    }

    /// Process raw input data through VT parser: every byte goes to the
    /// parser, and each action it produces is performed at once.
    pub fn process_input(&mut self, data: &[u8])
        requires
            old(self).wf(),
        ensures
            final(self)@ == old(self)@.feed(data@),
            final(self).wf(),
    {
        let ghost m0 = old(self)@;
        let ghost h = m0.fed;
        let mut collector = VtCollector { actions: Vec::new() };
        let mut done: usize = 0;
        let mut i: usize = 0;
        proof {
            lemma_apply_all_with_fed(m0, Seq::empty(), h);
        }
        assert(collector.actions@.take(0) =~= Seq::<VtAction>::empty());
        assert(data@.take(0) =~= Seq::<u8>::empty());
        assert(h + data@.take(0) =~= h);
        assert(m0.with_fed(h) =~= m0);
        while i < data.len()
            invariant
                i <= data.len(),
                h == m0.fed,
                self.wf(),
                done == collector.actions.len(),
                collector.actions@ == vt_output(h, data@.take(i as int)),
                self.parser@ == h + data@.take(i as int),
                self@ == m0.with_fed(h + data@.take(i as int)).apply_all(collector.actions@.take(done as int)),
            decreases data.len() - i,
        {
            let ghost before = collector.actions@;
            let ghost m_before = self@;
            let ghost f0 = h + data@.take(i as int);
            let ghost f1 = h + data@.take(i + 1);
            advance(&mut self.parser, &mut collector, data[i]);
            proof {
                assert(data@.take(i + 1).drop_last() =~= data@.take(i as int));
                assert(data@.take(i + 1).last() == data@[i as int]);
                assert(f0.push(data@[i as int]) =~= f1);
                assert(collector.actions@.take(done as int) =~= before.take(done as int));
                assert(before.take(done as int) =~= before);
                lemma_apply_all_with_fed(m0, before, f0);
                lemma_apply_all_with_fed(m0, before, f1);
                assert(self@ =~= m_before.with_fed(f1));
                assert(m0.apply_all(before).with_fed(f0).with_fed(f1) =~= m0.apply_all(before).with_fed(f1));
            }
            while done < collector.actions.len()
                invariant
                    self.wf(),
                    done <= collector.actions.len(),
                    self.parser@ == f1,
                    self@ == m0.with_fed(f1).apply_all(collector.actions@.take(done as int)),
                decreases collector.actions.len() - done,
            {
                proof {
                    lemma_apply_all_step(m0.with_fed(f1), collector.actions@, done as int);
                }
                self.perform(&collector.actions[done]);
                done = done + 1;
            }
            i = i + 1;
        }
        proof {
            assert(data@.take(data.len() as int) =~= data@);
            assert(collector.actions@.take(done as int) =~= collector.actions@);
            lemma_apply_all_with_fed(m0, collector.actions@, h + data@);
        }
    }

    /// Performs one parser action.
    pub fn perform(&mut self, action: &VtAction)
        requires
            old(self).wf(),
        ensures
            final(self)@ == old(self)@.apply(*action),
            final(self).wf(),
    {
        proof {
            lemma_apply_keeps_wf(self@, *action);
        }
        match action {
            VtAction::Print(c) => self.print(*c),
            VtAction::Execute(b) => self.execute(*b),
            VtAction::CsiDispatch { params, intermediates, ignore, action } => {
                self.csi_dispatch(params, intermediates.as_slice(), *ignore, *action)
            },
            VtAction::OscDispatch { parts, bell_terminated } => self.osc_dispatch(parts, *bell_terminated),
        }
    }

    /// Write a character at the current cursor position
    fn put_char(&mut self, c: char)
        requires
            old(self).wf(),
        ensures
            final(self)@ == old(self)@.put_char(c),
    {
        let cell = Cell { char: char_text(c), fg: self.attrs.fg, bg: self.attrs.bg, flags: self.attrs.to_flags() };
        assert(cell@ == self@.styled(c));
        let ghost m0 = self@;
        if self.cursor.col < self.buffer.cols {
            match self.buffer.cell_mut(self.cursor.row, self.cursor.col) {
                Some(r) => {
                    *r = cell;
                },
                None => {},
            }
        }
        proof {
            lemma_screen_ops_keep_shape(m0.screen, m0.cursor.row as int, m0.cursor.col as int, m0.styled(c), 0, 0);
        }
        self.cursor.col = self.cursor.col.saturating_add(1);
        if self.cursor.col >= self.buffer.cols {
            self.cursor.col = 0;
            self.line_feed();
        }
    }

    fn line_feed(&mut self)
        requires
            old(self).wf(),
        ensures
            final(self)@ == old(self)@.line_feed(),
    {
        if self.cursor.row >= self.scroll_bottom {
            self.buffer.scroll_up();
        } else {
            self.cursor.row = self.cursor.row + 1;
        }
    }

    fn carriage_return(&mut self)
        ensures
            final(self)@ == old(self)@.carriage_return(),
    {
        self.cursor.col = 0;
    }

    fn backspace(&mut self)
        ensures
            final(self)@ == old(self)@.backspace(),
    {
        if self.cursor.col > 0 {
            self.cursor.col -= 1;
        }
    }

    fn tab(&mut self)
        ensures
            final(self)@ == old(self)@.tab(),
    {
        let next_tab: u32 = (self.cursor.col as u32 / 8 + 1) * 8;
        let last = self.buffer.cols.saturating_sub(1);
        self.cursor.col = if next_tab < last as u32 {
            next_tab as u16
        } else {
            last
        };
    }

    pub fn print(&mut self, c: char)
        requires
            old(self).wf(),
        ensures
            final(self)@ == old(self)@.put_char(c),
    {
        self.put_char(c);
    }

    pub fn execute(&mut self, byte: u8)
        requires
            old(self).wf(),
        ensures
            final(self)@ == old(self)@.execute(byte),
    {
        if byte == 0x07 {
            // BEL - bell
        } else if byte == 0x08 {
            self.backspace();
        } else if byte == 0x09 {
            self.tab();
        } else if byte == 0x0A || byte == 0x0B || byte == 0x0C {
            self.line_feed();
        } else if byte == 0x0D {
            self.carriage_return();
        } else if byte == 0x7F {
            // DEL - ignored
        }
    }

    pub fn csi_dispatch(&mut self, params: &Vec<Vec<u16>>, _intermediates: &[u8], _ignore: bool, action: char)
        requires
            old(self).wf(),
        ensures
            final(self)@ == old(self)@.csi(params_model(params@), action),
    {
        let rows = self.buffer.rows;
        let cols = self.buffer.cols;
        if action == 'A' {
            // Cursor Up
            let n = param_or_default(params, 0, 1);
            self.cursor.row = self.cursor.row.saturating_sub(n);
        } else if action == 'B' {
            // Cursor Down
            let n = param_or_default(params, 0, 1);
            self.cursor.row = min_u16(self.cursor.row.saturating_add(n), rows.saturating_sub(1));
        } else if action == 'C' {
            // Cursor Forward
            let n = param_or_default(params, 0, 1);
            self.cursor.col = min_u16(self.cursor.col.saturating_add(n), cols.saturating_sub(1));
        } else if action == 'D' {
            // Cursor Backward
            let n = param_or_default(params, 0, 1);
            self.cursor.col = self.cursor.col.saturating_sub(n);
        } else if action == 'H' || action == 'f' {
            // Cursor Position (CUP)
            let row = param_or_default(params, 0, 1);
            let col = param_or_default(params, 1, 1);
            self.cursor.row = min_u16(index_from_param(row, 1), rows.saturating_sub(1));
            self.cursor.col = min_u16(index_from_param(col, 1), cols.saturating_sub(1));
        } else if action == 'J' {
            // Erase in Display
            let n = param_or_default(params, 0, 0);
            if n == 0 {
                self.erase_below();
            } else if n == 2 {
                self.buffer.clear();
            }
        } else if action == 'K' {
            // Erase in Line
            let n = param_or_default(params, 0, 0);
            if n == 0 {
                self.buffer.clear_to_eol(self.cursor.row, self.cursor.col);
            } else if n == 2 {
                self.buffer.clear_to_eol(self.cursor.row, 0);
            }
        } else if action == 'm' {
            // SGR - Select Graphic Rendition (colors/styles)
            self.handle_sgr(params);
        } else if action == 'r' {
            // Set Scrolling Region
            let top = param_or_default(params, 0, 1);
            let bottom = param_or_default(params, 1, rows);
            self.scroll_top = index_from_param(top, 1);
            self.scroll_bottom = min_u16(index_from_param(bottom, rows), rows.saturating_sub(1));
            self.cursor.row = 0;
            self.cursor.col = 0;
        } else if action == 's' {
            // Save cursor position
            self.saved_cursor = self.cursor;
        } else if action == 'u' {
            // Restore cursor position
            self.cursor = self.saved_cursor;
        }
    }

    /// Clears from the cursor to the end of the screen.
    fn erase_below(&mut self)
        requires
            old(self).wf(),
        ensures
            final(self)@ == old(self)@.with_screen(
                old(self)@.screen.cleared_to_eol(old(self).cursor.row as int, old(self).cursor.col as int)
                    .cleared_rows(old(self).cursor.row.saturating_add(1) as int, old(self).buffer.rows as int),
            ),
    {
        self.buffer.clear_to_eol(self.cursor.row, self.cursor.col);
        let ghost s1 = self.buffer@;
        let start = self.cursor.row.saturating_add(1);
        proof {
            lemma_screen_ops_keep_shape(old(self)@.screen, self.cursor.row as int, self.cursor.col as int, blank_cell(), 0, 0);
        }
        assert(s1.cleared_rows(start as int, start as int) =~= s1);
        let mut r = start;
        while r < self.buffer.rows
            invariant
                start <= r,
                r <= s1.rows || r == start,
                s1.wf(),
                self.buffer.rows == s1.rows,
                self.buffer@ == s1.cleared_rows(start as int, r as int),
                self.cursor == old(self).cursor,
                self.attrs == old(self).attrs,
                self.saved_cursor == old(self).saved_cursor,
                self.scroll_top == old(self).scroll_top,
                self.scroll_bottom == old(self).scroll_bottom,
                self.parser@ == old(self).parser@,
            decreases self.buffer.rows - r,
        {
            self.buffer.clear_to_eol(r, 0);
            assert(self.buffer@ =~= s1.cleared_rows(start as int, r + 1));
            r = r + 1;
        }
        assert(self.buffer@ =~= s1.cleared_rows(start as int, s1.rows as int)) by {
            if start < s1.rows {
                assert(r == s1.rows);
            } else {
                assert(s1.cleared_rows(start as int, r as int) =~= s1.cleared_rows(start as int, s1.rows as int));
            }
        }
    }

    fn apply_sgr_param(&mut self, p: u16)
        ensures
            final(self)@ == old(self)@.with_attrs(sgr_param(old(self).attrs, p)),
    {
        if p == 0 {
            // Reset
            self.attrs = TextAttrs::default();
        } else if p == 1 {
            self.attrs.bold = true;
        } else if p == 3 {
            self.attrs.italic = true;
        } else if p == 4 {
            self.attrs.underline = true;
        } else if p == 7 {
            self.attrs.inverse = true;
        } else if p == 9 {
            self.attrs.strikethrough = true;
        } else if p == 22 {
            self.attrs.bold = false;
        } else if p == 23 {
            self.attrs.italic = false;
        } else if p == 24 {
            self.attrs.underline = false;
        } else if p == 27 {
            self.attrs.inverse = false;
        } else if p == 29 {
            self.attrs.strikethrough = false;
        } else if 30 <= p && p <= 37 {
            // Standard foreground colors
            self.attrs.fg = (p - 30) as u8;
        } else if p == 39 {
            // Default foreground
            self.attrs.fg = 7;
        } else if 40 <= p && p <= 47 {
            // Standard background colors
            self.attrs.bg = (p - 40) as u8;
        } else if p == 49 {
            // Default background
            self.attrs.bg = 0;
        } else if 90 <= p && p <= 97 {
            // Bright foreground colors
            self.attrs.fg = (p - 90 + 8) as u8;
        } else if 100 <= p && p <= 107 {
            // Bright background colors
            self.attrs.bg = (p - 100 + 8) as u8;
        }
    }

    /// Handle SGR (Select Graphic Rendition) escape sequences
    fn handle_sgr(&mut self, params: &Vec<Vec<u16>>)
        ensures
            final(self)@ == old(self)@.with_attrs(sgr(old(self).attrs, params_model(params@))),
    {
        let ghost g = params_model(params@);
        let ghost target = sgr(self.attrs, g);
        let mut next: usize = 0;
        while next < params.len()
            invariant
                next <= params.len(),
                g == params_model(params@),
                sgr_walk(self.attrs, g, next as int, Seq::empty(), 0) == target,
                self@ == old(self)@.with_attrs(self.attrs),
            decreases params.len() - next,
        {
            let group = &params[next];
            next = next + 1;
            let ghost entered = next;
            assert(g[next - 1] == group@);
            let mut j: usize = 0;
            while j < group.len()
                invariant
                    entered <= next <= params.len(),
                    j <= group.len(),
                    g == params_model(params@),
                    sgr_walk(self.attrs, g, next as int, group@, j as int) == target,
                    self@ == old(self)@.with_attrs(self.attrs),
                decreases group.len() - j,
            {
                let p = group[j];
                if p == 38 || p == 48 {
                    // Extended colour
                    if next < params.len() {
                        let sel = &params[next];
                        next = next + 1;
                        assert(g[next - 1] == sel@);
                        if sel.len() > 0 && sel[0] == 5 {
                            if next < params.len() {
                                let cg = &params[next];
                                next = next + 1;
                                assert(g[next - 1] == cg@);
                                if cg.len() > 0 {
                                    let color = cg[0];
                                    if p == 38 {
                                        self.attrs.fg = color as u8;
                                    } else {
                                        self.attrs.bg = color as u8;
                                    }
                                }
                            }
                        }
                    }
                } else {
                    self.apply_sgr_param(p);
                }
                j = j + 1;
            }
            assert(sgr_walk(self.attrs, g, next as int, group@, j as int) == sgr_walk(self.attrs, g, next as int, Seq::empty(), 0));
        }
    }

    pub fn osc_dispatch(&mut self, _params: &Vec<Vec<u8>>, _bell_terminated: bool)
        ensures
            final(self)@ == old(self)@,
    {
        // OSC sequences (e.g., window title) change nothing on the screen
    }
}

/// The text of a single character (`char::to_string`).
#[verifier::external_body]
fn char_text(c: char) -> (s: String)
    ensures
        s@ == seq![c],
{
    c.to_string()
}

} // verus!
