//! The screen grid: visible lines of cells plus a bounded scrollback.
use vstd::prelude::*;

verus! {

/// One cell of the terminal grid: the text it shows and its colours and style flags.
#[derive(Debug, Clone)]
pub struct Cell {
    pub char: String,
    pub fg: u8,
    pub bg: u8,
    pub flags: u8,
}

/// What a cell holds, as mathematical values.
#[verifier::ext_equal]
pub struct CellModel {
    pub ch: Seq<char>,
    pub fg: u8,
    pub bg: u8,
    pub flags: u8,
}

impl View for Cell {
    type V = CellModel;

    open spec fn view(&self) -> CellModel {
        CellModel { ch: self.char@, fg: self.fg, bg: self.bg, flags: self.flags }
    }
}

/// The empty cell: a space with colour 0 and no flags.
pub open spec fn blank_cell() -> CellModel {
    CellModel { ch: seq![' '], fg: 0, bg: 0, flags: 0 }
}

/// A line of `n` empty cells.
pub open spec fn blank_line(n: nat) -> Seq<CellModel> {
    Seq::new(n, |_j: int| blank_cell())
}

/// The cells of one line, as values.
pub open spec fn line_model(line: Seq<Cell>) -> Seq<CellModel> {
    line.map_values(|c: Cell| c@)
}

/// The lines of a grid, as values.
pub open spec fn grid_model(lines: Seq<Vec<Cell>>) -> Seq<Seq<CellModel>> {
    lines.map_values(|l: Vec<Cell>| line_model(l@))
}

/// A line cut or padded with empty cells to `cols` cells.
pub open spec fn fit_line(line: Seq<CellModel>, cols: nat) -> Seq<CellModel> {
    if cols <= line.len() {
        line.take(cols as int)
    } else {
        line + blank_line((cols - line.len()) as nat)
    }
}

/// A line whose cells from `col` on are emptied.
pub open spec fn blank_from(line: Seq<CellModel>, col: int) -> Seq<CellModel> {
    Seq::new(line.len(), |j: int| if j >= col { blank_cell() } else { line[j] })
}

/// The screen buffer as values.
#[verifier::ext_equal]
pub struct ScreenModel {
    pub lines: Seq<Seq<CellModel>>,
    pub scrollback: Seq<Seq<CellModel>>,
    pub max_scrollback: usize,
    pub cols: u16,
    pub rows: u16,
}

impl ScreenModel {
    /// The grid has `rows` lines of `cols` cells each.
    pub open spec fn wf(self) -> bool {
        &&& self.lines.len() == self.rows
        &&& forall|i: int| 0 <= i < self.lines.len() ==> #[trigger] self.lines[i].len() == self.cols
    }

    /// A fresh screen of empty cells with no scrollback.
    pub open spec fn fresh(cols: u16, rows: u16) -> ScreenModel {
        ScreenModel {
            lines: Seq::new(rows as nat, |_i: int| blank_line(cols as nat)),
            scrollback: Seq::empty(),
            max_scrollback: 10000,
            cols,
            rows,
        }
    }

    /// Every line fitted to `cols` cells; lines added at the bottom are empty,
    /// lines past `rows` are dropped.
    pub open spec fn resized(self, cols: u16, rows: u16) -> ScreenModel {
        ScreenModel {
            lines: Seq::new(
                rows as nat,
                |i: int|
                    if i < self.lines.len() {
                        fit_line(self.lines[i], cols as nat)
                    } else {
                        blank_line(cols as nat)
                    },
            ),
            cols,
            rows,
            ..self
        }
    }

    /// The scrollback after the top line is appended to it, dropping its oldest
    /// line when it then holds more than `max_scrollback` lines.
    pub open spec fn pushed_scrollback(self) -> Seq<Seq<CellModel>> {
        let pushed = self.scrollback.push(self.lines[0]);
        if pushed.len() > self.max_scrollback {
            pushed.drop_first()
        } else {
            pushed
        }
    }

    /// The top line moves to the scrollback and an empty line enters at the bottom.
    pub open spec fn scrolled_up(self) -> ScreenModel {
        ScreenModel {
            lines: self.lines.drop_first().push(blank_line(self.cols as nat)),
            scrollback: self.pushed_scrollback(),
            ..self
        }
    }

    /// Every cell emptied; the shape of the grid is kept.
    pub open spec fn cleared(self) -> ScreenModel {
        ScreenModel {
            lines: Seq::new(self.lines.len(), |i: int| blank_line(self.lines[i].len())),
            ..self
        }
    }

    /// The cells of line `row` from `col` on emptied, when that line exists.
    pub open spec fn cleared_to_eol(self, row: int, col: int) -> ScreenModel {
        if 0 <= row < self.lines.len() {
            ScreenModel { lines: self.lines.update(row, blank_from(self.lines[row], col)), ..self }
        } else {
            self
        }
    }

    /// Every cell of lines `start` up to (not including) `end` emptied.
    pub open spec fn cleared_rows(self, start: int, end: int) -> ScreenModel {
        ScreenModel {
            lines: Seq::new(
                self.lines.len(),
                |i: int| if start <= i < end { blank_from(self.lines[i], 0) } else { self.lines[i] },
            ),
            ..self
        }
    }

    /// Cell (`row`, `col`) replaced by `c`.
    pub open spec fn with_cell(self, row: int, col: int, c: CellModel) -> ScreenModel {
        ScreenModel { lines: self.lines.update(row, self.lines[row].update(col, c)), ..self }
    }

    /// Whether (`row`, `col`) names a cell of the grid.
    pub open spec fn in_bounds(self, row: int, col: int) -> bool {
        0 <= row < self.lines.len() && 0 <= col < self.lines[row].len()
    }
}

/// Appending a cell appends its value.
pub proof fn lemma_line_model_push(line: Seq<Cell>, c: Cell)
    ensures
        line_model(line.push(c)) =~= line_model(line).push(c@),
{
    assert forall|k: int| 0 <= k < line.len() + 1 implies #[trigger] line_model(line.push(c))[k]
        == line_model(line).push(c@)[k] by {
        if k < line.len() {
            assert(line.push(c)[k] == line[k]);
        }
    }
}

/// Appending a line appends its value.
pub proof fn lemma_grid_model_push(lines: Seq<Vec<Cell>>, l: Vec<Cell>)
    ensures
        grid_model(lines.push(l)) =~= grid_model(lines).push(line_model(l@)),
{
    assert forall|k: int| 0 <= k < lines.len() + 1 implies #[trigger] grid_model(lines.push(l))[k]
        == grid_model(lines).push(line_model(l@))[k] by {
        if k < lines.len() {
            assert(lines.push(l)[k] == lines[k]);
        }
    }
}

/// Changing one cell changes its value.
pub proof fn lemma_line_model_update(line: Seq<Cell>, j: int, c: Cell)
    requires
        0 <= j < line.len(),
    ensures
        line_model(line.update(j, c)) =~= line_model(line).update(j, c@),
{
    assert forall|k: int| 0 <= k < line.len() implies #[trigger] line_model(line.update(j, c))[k]
        == line_model(line).update(j, c@)[k] by {
        if k != j {
            assert(line.update(j, c)[k] == line[k]);
        }
    }
}

/// Replacing one line replaces its value.
pub proof fn lemma_grid_model_update(lines: Seq<Vec<Cell>>, i: int, l: Vec<Cell>)
    requires
        0 <= i < lines.len(),
    ensures
        grid_model(lines.update(i, l)) =~= grid_model(lines).update(i, line_model(l@)),
{
    assert forall|k: int| 0 <= k < lines.len() implies #[trigger] grid_model(lines.update(i, l))[k]
        == grid_model(lines).update(i, line_model(l@))[k] by {
        if k != i {
            assert(lines.update(i, l)[k] == lines[k]);
        }
    }
}

/// Dropping the first line drops its value.
pub proof fn lemma_grid_model_remove_first(lines: Seq<Vec<Cell>>)
    requires
        lines.len() > 0,
    ensures
        grid_model(lines.remove(0)) =~= grid_model(lines).drop_first(),
{
    assert forall|k: int| 0 <= k < lines.len() - 1 implies #[trigger] grid_model(lines.remove(0))[k]
        == grid_model(lines).drop_first()[k] by {
        assert(lines.remove(0)[k] == lines[k + 1]);
    }
}

/// Keeping a prefix of the lines keeps a prefix of their values.
pub proof fn lemma_grid_model_take(lines: Seq<Vec<Cell>>, n: int)
    requires
        0 <= n <= lines.len(),
    ensures
        grid_model(lines.subrange(0, n)) =~= grid_model(lines).take(n),
{
    assert forall|k: int| 0 <= k < n implies #[trigger] grid_model(lines.subrange(0, n))[k]
        == grid_model(lines).take(n)[k] by {
        assert(lines.subrange(0, n)[k] == lines[k]);
    }
}

/// Keeping a prefix of the cells keeps a prefix of their values.
pub proof fn lemma_line_model_take(line: Seq<Cell>, n: int)
    requires
        0 <= n <= line.len(),
    ensures
        line_model(line.subrange(0, n)) =~= line_model(line).take(n),
{
    assert forall|k: int| 0 <= k < n implies #[trigger] line_model(line.subrange(0, n))[k]
        == line_model(line).take(n)[k] by {
        assert(line.subrange(0, n)[k] == line[k]);
    }
}

/// Cuts or pads `line` to `cols` cells, padding with empty cells.
pub fn fit_cells(line: &mut Vec<Cell>, cols: usize)
    ensures
        line_model(final(line)@) == fit_line(line_model(old(line)@), cols as nat),
{
    let ghost start = line_model(line@);
    if cols <= line.len() {
        proof {
            lemma_line_model_take(line@, cols as int);
        }
        line.truncate(cols);
    } else {
        let ghost n0 = line.len();
        while line.len() < cols
            invariant
                n0 <= line.len() <= cols,
                n0 == start.len(),
                line_model(line@) =~= start + blank_line((line.len() - n0) as nat),
            decreases cols - line.len(),
        {
            let c = Cell::default();
            proof {
                lemma_line_model_push(line@, c);
            }
            line.push(c);
        }
    }
}

/// Empties the cells of `line` from `col` on.
pub fn blank_cells_from(line: &mut Vec<Cell>, col: usize)
    ensures
        line_model(final(line)@) == blank_from(line_model(old(line)@), col as int),
{
    let ghost start = line_model(line@);
    let mut j = col;
    while j < line.len()
        invariant
            col <= j,
            line.len() == start.len(),
            line_model(line@) =~= Seq::new(
                start.len(),
                |k: int| if col <= k < j { blank_cell() } else { start[k] },
            ),
        decreases line.len() - j,
    {
        let c = Cell::default();
        proof {
            lemma_line_model_update(line@, j as int, c);
        }
        let ghost prev = line_model(line@);
        line.set(j, c);
        assert(line_model(line@) =~= Seq::new(
            start.len(),
            |k: int| if col <= k < j + 1 { blank_cell() } else { start[k] },
        )) by {
            assert forall|k: int| 0 <= k < start.len() implies #[trigger] line_model(line@)[k] == (if col <= k
                < j + 1 { blank_cell() } else { start[k] }) by {
                assert(line_model(line@) == prev.update(j as int, c@));
                if k != j {
                    assert(line_model(line@)[k] == prev[k]);
                    assert(prev[k] == (if col <= k < j { blank_cell() } else { start[k] }));
                } else {
                    assert(line_model(line@)[k] == c@);
                }
            }
        }
        j = j + 1;
    }
    assert(line_model(line@) =~= blank_from(start, col as int));
}

/// Every operation on the screen keeps its shape: `rows` lines of `cols` cells.
pub proof fn lemma_screen_ops_keep_shape(m: ScreenModel, row: int, col: int, c: CellModel, start: int, end: int)
    requires
        m.wf(),
    ensures
        m.in_bounds(row, col) ==> m.with_cell(row, col, c).wf(),
        m.lines.len() > 0 ==> m.scrolled_up().wf(),
        m.cleared().wf(),
        m.cleared_to_eol(row, col).wf(),
        m.cleared_rows(start, end).wf(),
{
    if m.in_bounds(row, col) {
        let w = m.with_cell(row, col, c);
        assert forall|i: int| 0 <= i < w.lines.len() implies #[trigger] w.lines[i].len() == w.cols by {
            if i != row {
                assert(w.lines[i] == m.lines[i]);
            }
        }
    }
    if m.lines.len() > 0 {
        let s = m.scrolled_up();
        assert forall|i: int| 0 <= i < s.lines.len() implies #[trigger] s.lines[i].len() == s.cols by {
            if i < m.lines.len() - 1 {
                assert(s.lines[i] == m.lines[i + 1]);
            }
        }
    }
    let e = m.cleared_to_eol(row, col);
    assert forall|i: int| 0 <= i < e.lines.len() implies #[trigger] e.lines[i].len() == e.cols by {
        assert(m.lines[i].len() == m.cols);
    }
    let r = m.cleared_rows(start, end);
    assert forall|i: int| 0 <= i < r.lines.len() implies #[trigger] r.lines[i].len() == r.cols by {
        assert(m.lines[i].len() == m.cols);
    }
    let k = m.cleared();
    assert forall|i: int| 0 <= i < k.lines.len() implies #[trigger] k.lines[i].len() == k.cols by {
        assert(m.lines[i].len() == m.cols);
    }
}

/// Writing a cell and reading it back gives what was written, and every
/// other cell keeps its value.
pub proof fn law_cell_read_after_write(m: ScreenModel, row: int, col: int, c: CellModel, r2: int, c2: int)
    requires
        m.in_bounds(row, col),
        m.in_bounds(r2, c2),
    ensures
        m.with_cell(row, col, c).in_bounds(r2, c2),
        m.with_cell(row, col, c).lines[r2][c2] == (if r2 == row && c2 == col {
            c
        } else {
            m.lines[r2][c2]
        }),
{
}

/// Resizing gives `rows` lines of `cols` cells, whatever the shape before.
pub proof fn law_resize_shape(m: ScreenModel, cols: u16, rows: u16)
    ensures
        m.resized(cols, rows).wf(),
{
    let r = m.resized(cols, rows);
    assert forall|i: int| 0 <= i < r.lines.len() implies #[trigger] r.lines[i].len() == r.cols by {
        if i < m.lines.len() {
            assert(r.lines[i] == fit_line(m.lines[i], cols as nat));
        } else {
            assert(r.lines[i] == blank_line(cols as nat));
        }
    }
}

/// Resizing a screen to the size it has changes nothing.
pub proof fn law_resize_to_same_size(m: ScreenModel)
    requires
        m.wf(),
    ensures
        m.resized(m.cols, m.rows) == m,
{
    let r = m.resized(m.cols, m.rows);
    assert forall|i: int| 0 <= i < m.lines.len() implies #[trigger] r.lines[i] == m.lines[i] by {
        assert(m.lines[i].len() == m.cols);
        assert(m.lines[i].take(m.cols as int) =~= m.lines[i]);
    }
    assert(r.lines =~= m.lines);
    assert(r =~= m);
}

/// Resizing keeps every cell that still fits.
pub proof fn law_resize_keeps_cells(m: ScreenModel, cols: u16, rows: u16, i: int, j: int)
    requires
        m.in_bounds(i, j),
        i < rows,
        j < cols,
    ensures
        m.resized(cols, rows).lines[i][j] == m.lines[i][j],
{
}

/// Growing a screen and shrinking it back to its size gives it back.
pub proof fn law_grow_then_shrink(m: ScreenModel, cols: u16, rows: u16)
    requires
        m.wf(),
        cols >= m.cols,
        rows >= m.rows,
    ensures
        m.resized(cols, rows).resized(m.cols, m.rows) == m,
{
    let g = m.resized(cols, rows);
    let b = g.resized(m.cols, m.rows);
    assert forall|i: int| 0 <= i < m.lines.len() implies #[trigger] b.lines[i] == m.lines[i] by {
        assert(m.lines[i].len() == m.cols);
        let grown = fit_line(m.lines[i], cols as nat);
        assert(g.lines[i] == grown);
        assert(grown.take(m.cols as int) =~= m.lines[i]);
    }
    assert(b.lines =~= m.lines);
    assert(b =~= m);
}

/// Scrolling keeps the shape of the screen, the top line becomes the newest
/// scrollback line (when the scrollback holds any line at all), and a
/// scrollback within its limit stays within it.
pub proof fn law_scroll_bounded(m: ScreenModel)
    requires
        m.wf(),
        m.lines.len() > 0,
        m.scrollback.len() <= m.max_scrollback,
    ensures
        m.scrolled_up().wf(),
        m.scrolled_up().scrollback.len() <= m.max_scrollback,
        m.max_scrollback > 0 ==> m.scrolled_up().scrollback.last() == m.lines[0],
        m.scrolled_up().lines.last() == blank_line(m.cols as nat),
{
    lemma_screen_ops_keep_shape(m, 0, 0, blank_cell(), 0, 0);
}

/// Clearing empties every cell and keeps the shape; clearing again changes
/// nothing.
pub proof fn law_clear(m: ScreenModel, row: int, col: int)
    requires
        m.in_bounds(row, col),
    ensures
        m.cleared().in_bounds(row, col),
        m.cleared().lines[row][col] == blank_cell(),
        m.cleared().cleared() == m.cleared(),
{
    let c = m.cleared();
    let cc = c.cleared();
    assert forall|i: int| 0 <= i < c.lines.len() implies #[trigger] cc.lines[i] == c.lines[i] by {
        assert(cc.lines[i] =~= c.lines[i]);
    }
    assert(cc.lines =~= c.lines);
    assert(cc =~= c);
}

impl Default for Cell {
    fn default() -> (c: Cell)
        ensures
            c@ == blank_cell(),
    {
        let s = String::from_str(" ");
        proof {
            reveal_strlit(" ");
        }
        let c = Cell { char: s, fg: 0, bg: 0, flags: 0 };
        assert(c@.ch =~= seq![' ']);
        c
    }
}

/// A line of `n` empty cells.
pub fn blank_cells(n: usize) -> (v: Vec<Cell>)
    ensures
        line_model(v@) == blank_line(n as nat),
{
    let mut v: Vec<Cell> = Vec::new();
    let mut j: usize = 0;
    while j < n
        invariant
            j <= n,
            line_model(v@) =~= blank_line(j as nat),
        decreases n - j,
    {
        let c = Cell::default();
        proof {
            lemma_line_model_push(v@, c);
        }
        v.push(c);
        j = j + 1;
        assert(line_model(v@) =~= blank_line(j as nat));
    }
    v
}

/// Screen buffer with scrollback.
pub struct ScreenBuffer {
    /// Active lines (visible area)
    pub lines: Vec<Vec<Cell>>,
    /// Scrollback buffer
    pub scrollback: Vec<Vec<Cell>>,
    /// Maximum scrollback lines
    pub max_scrollback: usize,
    /// Width and height
    pub cols: u16,
    pub rows: u16,
}

impl View for ScreenBuffer {
    type V = ScreenModel;

    open spec fn view(&self) -> ScreenModel {
        ScreenModel {
            lines: grid_model(self.lines@),
            scrollback: grid_model(self.scrollback@),
            max_scrollback: self.max_scrollback,
            cols: self.cols,
            rows: self.rows,
        }
    }
}

impl ScreenBuffer {
    /// A `cols` x `rows` grid of empty cells, no scrollback, room for 10000 scrollback lines.
    pub fn new(cols: u16, rows: u16) -> (b: ScreenBuffer)
        ensures
            b@ == ScreenModel::fresh(cols, rows),
            b@.wf(),
    {
        let mut lines: Vec<Vec<Cell>> = Vec::new();
        let mut i: u16 = 0;
        while i < rows
            invariant
                i <= rows,
                grid_model(lines@) =~= Seq::new(i as nat, |_k: int| blank_line(cols as nat)),
            decreases rows - i,
        {
            let l = blank_cells(cols as usize);
            proof {
                lemma_grid_model_push(lines@, l);
            }
            lines.push(l);
            i = i + 1;
            assert(grid_model(lines@) =~= Seq::new(i as nat, |_k: int| blank_line(cols as nat)));
        }
        let b = ScreenBuffer { lines, scrollback: Vec::new(), max_scrollback: 10000, cols, rows };
        assert(b@.scrollback =~= Seq::<Seq<CellModel>>::empty());
        assert(b@ =~= ScreenModel::fresh(cols, rows));
        b
    }

    /// Resize the buffer: each line is cut or padded to `cols` cells, then the
    /// grid is cut or padded with empty lines to `rows` lines.
    pub fn resize(&mut self, cols: u16, rows: u16)
        ensures
            final(self)@ == old(self)@.resized(cols, rows),
            final(self)@.wf(),
    {
        self.cols = cols;
        self.rows = rows;
        let ghost g0 = old(self)@.lines;
        let n = self.lines.len();
        let mut i: usize = 0;
        while i < n
            invariant
                self.lines.len() == n,
                n == g0.len(),
                i <= n,
                self.cols == cols,
                self.rows == rows,
                self.scrollback == old(self).scrollback,
                self.max_scrollback == old(self).max_scrollback,
                forall|k: int| 0 <= k < i ==> #[trigger] grid_model(self.lines@)[k] == fit_line(g0[k], cols as nat),
                forall|k: int| i <= k < n ==> #[trigger] grid_model(self.lines@)[k] == g0[k],
            decreases n - i,
        {
            let ghost before = self.lines@;
            fit_cells(&mut self.lines[i], cols as usize);
            proof {
                assert(grid_model(before)[i as int] == g0[i as int]);
                assert(grid_model(self.lines@)[i as int] == fit_line(g0[i as int], cols as nat));
                assert forall|k: int| 0 <= k < n && k != i implies self.lines@[k] == before[k] by {}
                assert forall|k: int| 0 <= k < n && k != i implies #[trigger] grid_model(self.lines@)[k] == grid_model(before)[k] by {
                    assert(self.lines@[k] == before[k]);
                }
            }
            i = i + 1;
        }
        let ghost fitted = grid_model(self.lines@);
        assert(forall|k: int| 0 <= k < n ==> fitted[k] == fit_line(g0[k], cols as nat));
        if (rows as usize) <= n {
            proof {
                lemma_grid_model_take(self.lines@, rows as int);
            }
            self.lines.truncate(rows as usize);
        } else {
            while self.lines.len() < rows as usize
                invariant
                    n <= self.lines.len() <= rows,
                    self.cols == cols,
                    self.rows == rows,
                    self.scrollback == old(self).scrollback,
                    self.max_scrollback == old(self).max_scrollback,
                    grid_model(self.lines@) =~= fitted + Seq::new((self.lines.len() - n) as nat, |_k: int| blank_line(cols as nat)),
                decreases rows - self.lines.len(),
            {
                let l = blank_cells(cols as usize);
                proof {
                    lemma_grid_model_push(self.lines@, l);
                }
                self.lines.push(l);
            }
        }
        assert(self@.lines =~= old(self)@.resized(cols, rows).lines);
        assert forall|k: int| 0 <= k < self@.lines.len() implies #[trigger] self@.lines[k].len() == self@.cols by {
            assert(self@.lines[k] == old(self)@.resized(cols, rows).lines[k]);
            if k < n {
                assert(self@.lines[k] == fit_line(g0[k], cols as nat));
            } else {
                assert(self@.lines[k] == blank_line(cols as nat));
            }
        }
    }

    /// Get a mutable reference to a cell
    pub fn cell_mut(&mut self, row: u16, col: u16) -> (r: Option<&mut Cell>)
        ensures
            old(self)@.in_bounds(row as int, col as int) <==> r is Some,
            r matches Some(c) ==> {
                &&& *c == old(self).lines@[row as int]@[col as int]
                &&& final(self)@ == old(self)@.with_cell(row as int, col as int, final(c)@)
            },
            r is None ==> *final(self) == *old(self),
    {
        if (row as usize) < self.lines.len() && (col as usize) < self.lines[row as usize].len() {
            let ghost before = self.lines@;
            let r = &mut self.lines[row as usize][col as usize];
            proof {
                lemma_line_model_update(before[row as int]@, col as int, *final(r));
            }
            Some(r)
        } else {
            None
        }
    }

    /// Get a reference to a cell
    pub fn cell(&self, row: u16, col: u16) -> (r: Option<&Cell>)
        ensures
            self@.in_bounds(row as int, col as int) <==> r is Some,
            r matches Some(c) ==> *c == self.lines@[row as int]@[col as int],
    {
        if (row as usize) < self.lines.len() && (col as usize) < self.lines[row as usize].len() {
            Some(&self.lines[row as usize][col as usize])
        } else {
            None
        }
    }

    /// Scroll the buffer up by one line
    pub fn scroll_up(&mut self)
        requires
            old(self).lines.len() > 0,
        ensures
            final(self)@ == old(self)@.scrolled_up(),
    {
        let ghost g0 = self.lines@;
        let ghost s0 = self.scrollback@;
        let line = self.lines.remove(0);
        proof {
            lemma_grid_model_remove_first(g0);
            lemma_grid_model_push(s0, line);
        }
        self.scrollback.push(line);
        if self.scrollback.len() > self.max_scrollback {
            let ghost s1 = self.scrollback@;
            proof {
                lemma_grid_model_remove_first(s1);
            }
            self.scrollback.remove(0);
        }
        let l = blank_cells(self.cols as usize);
        proof {
            lemma_grid_model_push(self.lines@, l);
        }
        self.lines.push(l);
        assert(self@ =~= old(self)@.scrolled_up());
    }

    /// Clear the entire buffer
    pub fn clear(&mut self)
        ensures
            final(self)@ == old(self)@.cleared(),
    {
        let ghost g0 = old(self)@.lines;
        let n = self.lines.len();
        let mut i: usize = 0;
        while i < n
            invariant
                self.lines.len() == n,
                n == g0.len(),
                i <= n,
                self.cols == old(self).cols,
                self.rows == old(self).rows,
                self.max_scrollback == old(self).max_scrollback,
                self.scrollback == old(self).scrollback,
                forall|k: int| 0 <= k < i ==> #[trigger] grid_model(self.lines@)[k] == blank_line(g0[k].len()),
                forall|k: int| i <= k < n ==> #[trigger] grid_model(self.lines@)[k] == g0[k],
            decreases n - i,
        {
            let len = self.lines[i].len();
            let l = blank_cells(len);
            let ghost before = self.lines@;
            proof {
                lemma_grid_model_update(self.lines@, i as int, l);
                assert(grid_model(before)[i as int] == g0[i as int]);
                assert(g0[i as int].len() == len);
            }
            self.lines.set(i, l);
            proof {
                assert forall|k: int| 0 <= k < i implies #[trigger] grid_model(self.lines@)[k] == blank_line(g0[k].len()) by {
                    assert(grid_model(before)[k] == blank_line(g0[k].len()));
                }
                assert forall|k: int| i < k < n implies #[trigger] grid_model(self.lines@)[k] == g0[k] by {
                    assert(grid_model(before)[k] == g0[k]);
                }
            }
            i = i + 1;
        }
        assert(self@ =~= old(self)@.cleared());
    }

    /// Clear from cursor to end of line
    pub fn clear_to_eol(&mut self, row: u16, col: u16)
        ensures
            final(self)@ == old(self)@.cleared_to_eol(row as int, col as int),
    {
        if (row as usize) < self.lines.len() {
            let ghost before = self.lines@;
            blank_cells_from(&mut self.lines[row as usize], col as usize);
            proof {
                assert forall|k: int| 0 <= k < before.len() && k != row implies #[trigger] grid_model(self.lines@)[k] == grid_model(before)[k] by {
                    assert(self.lines@[k] == before[k]);
                }
            }
            assert(self@ =~= old(self)@.cleared_to_eol(row as int, col as int));
        }
    }
}

} // verus!
