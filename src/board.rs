//! The board: an occupancy grid with a visible part, a running stack height,
//! collision checks, locking and line clearing.

use vstd::prelude::*;
use crate::play_box::PlayBox;
use crate::catalog::{
    bit, bbox_corner, lemma_bbox_bounds, bbox_height, bbox_width, BitMap, BoxIndex, BoxPos,
    GameLib, GamePanelConfig, MAX_PANEL_SIDE, PLAY_BOX_BITMAP_SIZE,
};

verus! {

/// The visible part of the board: rows `[0, row_count)` and columns
/// `[0, col_count)`.
#[derive(Debug, Clone, Copy)]
pub struct PlayBoxRegion {
    pub row_count: usize,
    pub col_count: usize,
}

impl PlayBoxRegion {
    pub fn new(row_count: usize, col_count: usize) -> (r: Self)
        ensures
            r.row_count == row_count,
            r.col_count == col_count,
    {
        Self { row_count, col_count }
    }

    /// Whether a cell at this position is drawn.
    pub fn get_visibility(&self, row: i32, col: i32) -> (r: bool)
        ensures
            r == (0 <= row < self.row_count && 0 <= col < self.col_count),
    {
        0 <= row && (row as usize) < self.row_count && 0 <= col && (col as usize) < self.col_count
    }
}

/// Board column of the left edge of a piece of width `width` centred on
/// `cols` columns (halving rounds toward zero).
pub open spec fn centered_col(cols: int, width: int) -> int {
    if cols >= width {
        (cols - width) / 2
    } else {
        -((width - cols) / 2)
    }
}

/// Board cell covered by the piece offset `off` when its frame is anchored at `pos`.
pub open spec fn target(pos: BoxPos, off: BoxPos) -> (int, int) {
    (pos.row + off.row, pos.col + off.col)
}

/// Stack height after locking the first `n` fragments at `pos` + `offs` on
/// a stack of height `h` with `rows` rows: the largest of `h` and one past
/// the row of each fragment that lands inside the grid.
pub open spec fn lock_height(h: int, pos: BoxPos, offs: Seq<BoxPos>, n: int, rows: int) -> int
    decreases n,
{
    if n <= 0 {
        h
    } else {
        let prev = lock_height(h, pos, offs, n - 1, rows);
        let top = target(pos, offs[n - 1]).0 + 1;
        if prev > top || top > rows {
            prev
        } else {
            top
        }
    }
}

/// `after` is `before` with fragment `ids[j]` written at `pos` + `offs[j]`
/// for each `j` that lands inside the grid, the stack height raised over
/// them, and every other cell kept. Fragments above the grid are dropped.
pub open spec fn locked(
    before: GamePanel,
    after: GamePanel,
    pos: BoxPos,
    offs: Seq<BoxPos>,
    ids: Seq<u64>,
) -> bool {
    &&& after.rows() == before.rows()
    &&& after.cols() == before.cols()
    &&& after.main_rows == before.main_rows
    &&& forall|j: int| 0 <= j < offs.len() && #[trigger] target(pos, offs[j]).0 < before.rows() ==>
        after.cell(target(pos, offs[j]).0, target(pos, offs[j]).1) == Some(ids[j])
    &&& forall|r: int, c: int|
        after.inside(r, c) && (forall|j: int| 0 <= j < offs.len() ==>
            #[trigger] target(pos, offs[j]) != (r, c))
            ==> #[trigger] after.cell(r, c) == before.cell(r, c)
    &&& after.height == lock_height(before.height as int, pos, offs, offs.len() as int, before.rows())
}

/// Every cell of row `row` of grid `g` is occupied.
pub open spec fn grid_row_full(g: Seq<Vec<Option<u64>>>, row: int) -> bool {
    forall|c: int| 0 <= c < g[0]@.len() ==> (#[trigger] g[row]@[c]) is Some
}

/// The full rows of grid `g` among `[lo, hi)`, in increasing order.
pub open spec fn grid_full_rows(g: Seq<Vec<Option<u64>>>, lo: int, hi: int) -> Seq<usize>
    decreases hi - lo,
{
    if hi <= lo {
        seq![]
    } else {
        let prev = grid_full_rows(g, lo, hi - 1);
        if grid_row_full(g, hi - 1) {
            prev.push((hi - 1) as usize)
        } else {
            prev
        }
    }
}

/// How many entries of `f` are smaller than `r`.
pub open spec fn count_below(f: Seq<usize>, r: int) -> int
    decreases f.len(),
{
    if f.len() == 0 {
        0
    } else {
        count_below(f.drop_last(), r) + if f.last() < r {
            1int
        } else {
            0int
        }
    }
}

/// Whether `r` is an entry of `f`.
pub open spec fn listed(f: Seq<usize>, r: int) -> bool {
    exists|i: int| 0 <= i < f.len() && f[i] == r
}

/// In a strictly increasing list, entries `b` and `a` lie at least `b - a` apart.
proof fn lemma_increasing_gap(f: Seq<usize>, a: int, b: int)
    requires
        GamePanel::increasing(f),
        0 <= a <= b < f.len(),
    ensures
        f[b] - f[a] >= b - a,
    decreases b - a,
{
    if a < b {
        lemma_increasing_gap(f, a, b - 1);
    }
}

/// In a strictly increasing list, the entries below `r` are exactly the
/// first `count_below(f, r)`.
proof fn lemma_count_below(f: Seq<usize>, r: int)
    requires
        GamePanel::increasing(f),
    ensures
        0 <= count_below(f, r) <= f.len(),
        count_below(f, r) > 0 ==> f[count_below(f, r) - 1] < r,
        count_below(f, r) < f.len() ==> f[count_below(f, r)] >= r,
    decreases f.len(),
{
    if f.len() > 0 {
        let g = f.drop_last();
        assert(GamePanel::increasing(g)) by {
            assert(forall|i: int| 0 <= i < g.len() ==> g[i] == f[i]);
        }
        lemma_count_below(g, r);
        let m = count_below(g, r);
        if f.last() < r {
            if m < g.len() {
                assert(g[m] == f[m]);
                assert(f[m] < f[f.len() - 1]);
            }
        } else {
            if m > 0 {
                assert(g[m - 1] == f[m - 1]);
            }
            if m < g.len() {
                assert(g[m] == f[m]);
            }
        }
    }
}

/// The position of a row that is not listed, among the listed ones.
proof fn lemma_count_below_between(f: Seq<usize>, r: int, m: int)
    requires
        GamePanel::increasing(f),
        0 <= m <= f.len(),
        m > 0 ==> f[m - 1] < r,
        m < f.len() ==> r <= f[m],
    ensures
        count_below(f, r) == m,
{
    lemma_count_below(f, r);
    let n = count_below(f, r);
    if n < m {
        assert(f[n] < f[m - 1] || n == m - 1);
    } else if n > m {
        assert(f[m] < f[n - 1] || m == n - 1);
    }
}

/// `after` is `before` with its recorded full rows removed: every other
/// row below the stack height moved down by the number of full rows beneath
/// it, the rows left over at the top emptied, the height lowered by the
/// number of full rows, and no full rows recorded.
pub open spec fn rows_removed(before: GamePanel, after: GamePanel) -> bool {
    let f = before.full_rows@;
    &&& after.rows() == before.rows()
    &&& after.cols() == before.cols()
    &&& after.main_rows == before.main_rows
    &&& after.full_rows_visible == before.full_rows_visible
    &&& after.full_rows@.len() == 0
    &&& after.height == before.height - f.len()
    &&& forall|s: int, c: int|
        0 <= s < before.height && !listed(f, s) && 0 <= c < before.cols() ==> after.cell(
            s - count_below(f, s),
            c,
        ) == #[trigger] before.cell(s, c)
    &&& forall|r: int, c: int|
        before.height - f.len() <= r < before.rows() && 0 <= c < before.cols() ==> (#[trigger] after.cell(
            r,
            c,
        )) is None
}

/// The grid. Each cell holds the identity of the piece fragment locked
/// there, or nothing.
#[derive(Debug)]
pub struct GamePanel {
    pub main_rows: usize,
    pub boxes: Vec<Vec<Option<u64>>>,
    pub full_rows: Vec<usize>,
    pub height: usize,
    pub play_region: PlayBoxRegion,
    pub full_rows_visible: bool,
}

impl GamePanel {
    pub open spec fn rows(&self) -> int {
        self.boxes@.len() as int
    }

    pub open spec fn cols(&self) -> int {
        self.boxes@[0]@.len() as int
    }

    pub open spec fn cell(&self, row: int, col: int) -> Option<u64> {
        self.boxes@[row]@[col]
    }

    pub open spec fn inside(&self, row: int, col: int) -> bool {
        0 <= row < self.rows() && 0 <= col < self.cols()
    }

    /// Inside the grid and not occupied.
    pub open spec fn free(&self, row: int, col: int) -> bool {
        self.inside(row, col) && self.cell(row, col) is None
    }

    /// A piece cell may stand here: within the columns, not below row 0,
    /// and free unless above the grid's top (which has no upper bound).
    pub open spec fn open_cell(&self, row: int, col: int) -> bool {
        &&& 0 <= col < self.cols()
        &&& 0 <= row
        &&& row < self.rows() ==> self.cell(row, col) is None
    }

    /// Some fragment at `pos` + `offs` lands above the grid's top row.
    pub open spec fn overflows(&self, pos: BoxPos, offs: Seq<BoxPos>) -> bool {
        exists|j: int| 0 <= j < offs.len() && #[trigger] target(pos, offs[j]).0 >= self.rows()
    }

    pub open spec fn row_full(&self, row: int) -> bool {
        grid_row_full(self.boxes@, row)
    }

    pub open spec fn row_empty(&self, row: int) -> bool {
        forall|c: int| 0 <= c < self.cols() ==> (#[trigger] self.cell(row, c)) is None
    }

    /// Board row of the set cell at array row `r` of a bitmap anchored at `pos`.
    pub open spec fn target_row(pos: BoxPos, r: int) -> int {
        pos.row + (3 - r)
    }

    /// Every set cell of `bmp`, anchored with its frame's bottom-left corner
    /// at `pos`, lands on an open cell: within the columns, not below row 0,
    /// and not on an occupied cell.
    pub open spec fn fits(&self, bmp: BitMap, pos: BoxPos) -> bool {
        forall|r: int, c: int|
            0 <= r < 4 && 0 <= c < 4 && #[trigger] bit(bmp, r, c) ==> self.open_cell(
                Self::target_row(pos, r),
                pos.col + c,
            )
    }

    /// Row indices strictly increasing.
    pub open spec fn increasing(s: Seq<usize>) -> bool {
        forall|i: int, j: int| 0 <= i < j < s.len() ==> s[i] < s[j]
    }

    /// Rows and columns within bounds, every row as long as the first.
    pub open spec fn shaped(&self) -> bool {
        &&& 1 <= self.rows() <= MAX_PANEL_SIDE
        &&& 1 <= self.cols() <= MAX_PANEL_SIDE
        &&& forall|r: int| 0 <= r < self.rows() ==> (#[trigger] self.boxes@[r])@.len() == self.cols()
    }

    pub open spec fn wf(&self) -> bool {
        &&& self.shaped()
        &&& self.main_rows <= self.rows()
        &&& self.height <= self.rows()
        &&& forall|r: int, c: int|
            self.height <= r < self.rows() && 0 <= c < self.cols() ==> (#[trigger] self.boxes@[r]@[c]) is None
        &&& Self::increasing(self.full_rows@)
        &&& forall|i: int| 0 <= i < self.full_rows@.len() ==> #[trigger] self.full_rows@[i] < self.height
        &&& self.play_region.row_count == self.main_rows
        &&& self.play_region.col_count == self.cols()
    }

    /// An empty board of the configured size.
    pub fn new(config: &GamePanelConfig) -> (r: Self)
        requires
            config.valid(),
        ensures
            r.wf(),
            r.rows() == config.rows(),
            r.cols() == config.cols(),
            r.main_rows == config.main_rows,
            r.height == 0,
            r.full_rows@.len() == 0,
            forall|row: int, col: int| r.inside(row, col) ==> r.cell(row, col) is None,
    {
        let rows = config.row_count();
        let cols = config.col_count();
        let mut boxes: Vec<Vec<Option<u64>>> = Vec::new();
        let mut i: usize = 0;
        while i < rows
            invariant
                i <= rows,
                boxes@.len() == i,
                forall|r: int| 0 <= r < i ==> (#[trigger] boxes@[r])@.len() == cols,
                forall|r: int, c: int| 0 <= r < i && 0 <= c < cols ==> (#[trigger] boxes@[r]@[c]) is None,
            decreases rows - i,
        {
            let mut row: Vec<Option<u64>> = Vec::new();
            let mut j: usize = 0;
            while j < cols
                invariant
                    j <= cols,
                    row@.len() == j,
                    forall|c: int| 0 <= c < j ==> (#[trigger] row@[c]) is None,
                decreases cols - j,
            {
                row.push(None);
                j += 1;
            }
            boxes.push(row);
            i += 1;
        }
        Self {
            main_rows: config.main_rows,
            boxes,
            full_rows: Vec::new(),
            height: 0,
            play_region: PlayBoxRegion::new(config.main_rows, cols),
            full_rows_visible: true,
        }
    }

    pub fn row_count(&self) -> (r: usize)
        ensures
            r == self.rows(),
    {
        self.boxes.len()
    }

    pub fn col_count(&self) -> (r: usize)
        requires
            self.wf(),
        ensures
            r == self.cols(),
    {
        self.boxes[0].len()
    }

    pub fn is_inside(&self, row: i32, col: i32) -> (r: bool)
        requires
            self.wf(),
        ensures
            r == self.inside(row as int, col as int),
    {
        0 <= row && (row as usize) < self.row_count() && 0 <= col && (col as usize) < self.col_count()
    }

    /// Whether the cell holds a locked fragment.
    pub fn occupied(&self, row: usize, col: usize) -> (r: bool)
        requires
            self.wf(),
            self.inside(row as int, col as int),
        ensures
            r == self.cell(row as int, col as int) is Some,
    {
        self.boxes[row][col].is_some()
    }

    /// Whether a position, in wide integers, is an open cell.
    fn is_open_at(&self, row: i64, col: i64) -> (r: bool)
        requires
            self.wf(),
        ensures
            r == self.open_cell(row as int, col as int),
    {
        if row < 0 || col < 0 || col >= self.col_count() as i64 {
            false
        } else if row >= self.row_count() as i64 {
            true
        } else {
            self.boxes[row as usize][col as usize].is_none()
        }
    }

    /// Whether some cell of the piece `index` anchored at `pos` lands above
    /// the grid's top row.
    pub fn above_top(&self, pos: &BoxPos, index: &BoxIndex, game_lib: &GameLib) -> (r: bool)
        requires
            self.wf(),
            game_lib.wf(),
            game_lib.valid_index(*index),
        ensures
            r == self.overflows(*pos, game_lib.cells_of(*index)),
    {
        let offs = game_lib.box_pos(index);
        let rows = self.row_count() as i64;
        let mut j: usize = 0;
        while j < offs.len()
            invariant
                self.wf(),
                offs@ == game_lib.cells_of(*index),
                rows == self.rows(),
                j <= offs@.len(),
                forall|k: int| 0 <= k < j ==> #[trigger] target(*pos, offs@[k]).0 < self.rows(),
            decreases offs@.len() - j,
        {
            if pos.row as i64 + offs[j].row as i64 >= rows {
                assert(target(*pos, offs@[j as int]).0 >= self.rows());
                return true;
            }
            j += 1;
        }
        false
    }

    /// Whether the piece `index` fits with its frame anchored at `pos`.
    pub fn can_move_to(&self, pos: &BoxPos, index: &BoxIndex, game_lib: &GameLib) -> (r: bool)
        requires
            self.wf(),
            game_lib.wf(),
            game_lib.valid_index(*index),
        ensures
            r == self.fits(game_lib.bitmap(*index), *pos),
    {
        let bmp = game_lib.config.box_config.play_box_bitmap(index);
        let mut lr: usize = 0;
        while lr < PLAY_BOX_BITMAP_SIZE
            invariant
                self.wf(),
                lr <= 4,
                *bmp == game_lib.bitmap(*index),
                forall|r: int, c: int|
                    3 - lr < r < 4 && 0 <= c < 4 && #[trigger] bit(*bmp, r, c) ==> self.open_cell(
                        Self::target_row(*pos, r),
                        pos.col + c,
                    ),
            decreases 4 - lr,
        {
            let r = PLAY_BOX_BITMAP_SIZE - 1 - lr;
            let row = pos.row as i64 + lr as i64;
            let mut c: usize = 0;
            while c < PLAY_BOX_BITMAP_SIZE
                invariant
                    self.wf(),
                    lr < 4,
                    c <= 4,
                    r == 3 - lr,
                    row == Self::target_row(*pos, r as int),
                    *bmp == game_lib.bitmap(*index),
                    forall|r2: int, c2: int|
                        ((3 - lr < r2 < 4 && 0 <= c2 < 4) || (r2 == r && 0 <= c2 < c)) && #[trigger] bit(
                            *bmp,
                            r2,
                            c2,
                        ) ==> self.open_cell(Self::target_row(*pos, r2), pos.col + c2),
                decreases 4 - c,
            {
                if bmp[r][c] != 0 {
                    assert(bit(*bmp, r as int, c as int));
                    if !self.is_open_at(row, pos.col as i64 + c as i64) {
                        return false;
                    }
                }
                c += 1;
            }
            lr += 1;
        }
        true
    }

    /// Anchor column of a new piece with bitmap `bmp`: its bounding box
    /// centred over the columns.
    pub open spec fn spawn_col(&self, bmp: BitMap) -> int {
        centered_col(self.cols(), bbox_width(bmp)) - bbox_corner(bmp).col
    }

    /// Lowest anchor row tried for a new piece: its bounding box's bottom at
    /// `main_rows` less the box's height.
    pub open spec fn spawn_low(&self, bmp: BitMap) -> int {
        self.main_rows - bbox_height(bmp) - bbox_corner(bmp).row
    }

    /// Highest anchor row tried for a new piece: its bounding box's top at
    /// the grid's top.
    pub open spec fn spawn_high(&self, bmp: BitMap) -> int {
        self.rows() - bbox_height(bmp) - bbox_corner(bmp).row
    }

    /// A new piece fits at `row` of the spawn column.
    pub open spec fn spawn_row_fits(&self, bmp: BitMap, row: int) -> bool {
        self.fits(bmp, BoxPos { row: row as i32, col: self.spawn_col(bmp) as i32 })
    }

    /// No row tried for a new piece fits.
    pub open spec fn spawn_fails(&self, bmp: BitMap) -> bool {
        forall|row: int|
            self.spawn_low(bmp) <= row <= self.spawn_high(bmp) ==> !#[trigger] self.spawn_row_fits(bmp, row)
    }

    /// `p` is the lowest tried position where a new piece fits.
    pub open spec fn spawn_pos(&self, bmp: BitMap, p: BoxPos) -> bool {
        &&& p.col == self.spawn_col(bmp)
        &&& self.spawn_low(bmp) <= p.row <= self.spawn_high(bmp)
        &&& self.fits(bmp, p)
        &&& forall|row: int| self.spawn_low(bmp) <= row < p.row ==> !#[trigger] self.spawn_row_fits(bmp, row)
    }

    /// Where a new piece `index` enters the board: centred horizontally, its
    /// bounding box's height below `main_rows`, or the first row above that
    /// where it fits, up to the top of the grid; `None` when it fits nowhere.
    pub fn init_pos(&self, index: &BoxIndex, game_lib: &GameLib) -> (r: Option<BoxPos>)
        requires
            self.wf(),
            game_lib.wf(),
            game_lib.valid_index(*index),
        ensures
            r matches Some(p) ==> self.spawn_pos(game_lib.bitmap(*index), p),
            r is None <==> self.spawn_fails(game_lib.bitmap(*index)),
    {
        let box_size = game_lib.box_size(index);
        proof {
            lemma_bbox_bounds(game_lib.bitmap(*index));
        }
        let corner = game_lib.box_corner(index);
        let h = box_size.height as i32;
        let w = box_size.width as i32;
        let max_row = self.row_count() as i32 - h - corner.row;
        let init_row = self.main_rows as i32 - h - corner.row;
        let cols = self.col_count() as i32;
        let centred = if cols >= w {
            (cols - w) / 2
        } else {
            -((w - cols) / 2)
        };
        let col = centred - corner.col;
        let mut row = init_row;
        while row <= max_row
            invariant
                self.wf(),
                game_lib.wf(),
                game_lib.valid_index(*index),
                init_row <= row <= max_row + 1,
                0 <= bbox_height(game_lib.bitmap(*index)) <= 4,
                0 <= bbox_width(game_lib.bitmap(*index)) <= 4,
                0 <= bbox_corner(game_lib.bitmap(*index)).row <= 4,
                0 <= bbox_corner(game_lib.bitmap(*index)).col <= 4,
                max_row == self.spawn_high(game_lib.bitmap(*index)),
                init_row == self.spawn_low(game_lib.bitmap(*index)),
                col == self.spawn_col(game_lib.bitmap(*index)),
                forall|r2: int|
                    init_row <= r2 < row ==> !#[trigger] self.spawn_row_fits(game_lib.bitmap(*index), r2),
            decreases max_row + 1 - row,
        {
            let pos = BoxPos::new(row, col);
            if self.can_move_to(&pos, index, game_lib) {
                assert(self.spawn_row_fits(game_lib.bitmap(*index), row as int));
                return Some(pos);
            }
            row += 1;
        }
        None
    }

    /// A placement is refused exactly when some set cell of the bitmap lands
    /// left or right of the grid, below row 0, or on an occupied cell; cells
    /// above the grid's top are no obstacle.
    pub proof fn lemma_can_place_iff(&self, bmp: BitMap, pos: BoxPos)
        requires
            self.wf(),
        ensures
            !self.fits(bmp, pos) <==> exists|r: int, c: int|
                0 <= r < 4 && 0 <= c < 4 && #[trigger] bit(bmp, r, c) && {
                    ||| pos.col + c < 0
                    ||| pos.col + c >= self.cols()
                    ||| Self::target_row(pos, r) < 0
                    ||| Self::target_row(pos, r) < self.rows() && self.cell(
                        Self::target_row(pos, r),
                        pos.col + c,
                    ) is Some
                },
    {
    }

    /// The full rows among `[lo, hi)`, in increasing order.
    pub open spec fn full_rows_in(&self, lo: int, hi: int) -> Seq<usize> {
        grid_full_rows(self.boxes@, lo, hi)
    }

    proof fn lemma_full_rows_in(&self, lo: int, hi: int)
        requires
            0 <= lo,
            hi <= usize::MAX,
        ensures
            Self::increasing(self.full_rows_in(lo, hi)),
            forall|i: int|
                0 <= i < self.full_rows_in(lo, hi).len() ==> lo <= #[trigger] self.full_rows_in(lo, hi)[i]
                    < hi && self.row_full(self.full_rows_in(lo, hi)[i] as int),
        decreases hi - lo,
    {
        if hi > lo {
            self.lemma_full_rows_in(lo, hi - 1);
            let prev = self.full_rows_in(lo, hi - 1);
            if self.row_full(hi - 1) {
                let cur = prev.push((hi - 1) as usize);
                assert(cur[cur.len() - 1] == hi - 1);
                assert forall|i: int| 0 <= i < cur.len()
                    implies lo <= #[trigger] cur[i] < hi && self.row_full(cur[i] as int) by {
                    if i < prev.len() {
                        assert(cur[i] == prev[i]);
                    }
                }
                assert forall|i: int, j: int| 0 <= i < j < cur.len() implies cur[i] < cur[j] by {
                    if j < prev.len() {
                        assert(cur[i] == prev[i] && cur[j] == prev[j]);
                    } else {
                        assert(cur[i] == prev[i]);
                    }
                }
            }
        }
    }

    /// Whether every cell of `row` is occupied.
    pub fn is_full_row(&self, row: usize) -> (r: bool)
        requires
            self.wf(),
            row < self.rows(),
        ensures
            r == self.row_full(row as int),
    {
        let cols = self.col_count();
        let mut c: usize = 0;
        while c < cols
            invariant
                self.wf(),
                row < self.rows(),
                cols == self.cols(),
                c <= cols,
                forall|c2: int| 0 <= c2 < c ==> (#[trigger] self.boxes@[row as int]@[c2]) is Some,
            decreases cols - c,
        {
            if self.boxes[row][c].is_none() {
                assert(self.cell(row as int, c as int) is None);
                return false;
            }
            c += 1;
        }
        true
    }

    /// Records the full rows among `[start_row, end_row)`.
    pub fn check_full_rows(&mut self, start_row: usize, end_row: usize)
        requires
            old(self).wf(),
            start_row <= end_row <= old(self).rows(),
        ensures
            final(self).wf(),
            final(self).full_rows@ == old(self).full_rows_in(start_row as int, end_row as int),
            final(self).boxes == old(self).boxes,
            final(self).height == old(self).height,
            final(self).main_rows == old(self).main_rows,
            final(self).full_rows_visible == old(self).full_rows_visible,
    {
        let ghost orig = *self;
        self.full_rows.clear();
        let mut row: usize = start_row;
        while row < end_row
            invariant
                self.wf(),
                orig.wf(),
                start_row <= row <= end_row <= self.rows(),
                self.full_rows@ == orig.full_rows_in(start_row as int, row as int),
                self.boxes == orig.boxes,
                orig.height == old(self).height,
                self.boxes == old(self).boxes,
                self.height == old(self).height,
                self.main_rows == old(self).main_rows,
                self.full_rows_visible == old(self).full_rows_visible,
                self.play_region == old(self).play_region,
            decreases end_row - row,
        {
            let full = self.is_full_row(row);
            if full {
                proof {
                    orig.lemma_full_rows_in(start_row as int, row as int);
                    assert(self.cell(row as int, 0) is Some);
                    if row >= self.height {
                        assert(self.boxes@[row as int]@[0] is None);
                    }
                }
                self.full_rows.push(row);
                proof {
                    orig.lemma_full_rows_in(start_row as int, row + 1);
                }
            }
            row += 1;
        }
    }

    /// First row whose fullness is checked after a lock at `pos`: the
    /// bottom of the piece's frame, within the grid.
    pub open spec fn lock_rows_start(&self, pos: BoxPos) -> int {
        if pos.row < 0 {
            0
        } else if pos.row > self.rows() {
            self.rows()
        } else {
            pos.row as int
        }
    }

    /// One past the last row checked after a lock at `pos`: the top of the
    /// piece's frame, within the grid.
    pub open spec fn lock_rows_end(&self, pos: BoxPos) -> int {
        let top = pos.row + 4;
        if top > self.rows() {
            self.rows()
        } else if top < self.lock_rows_start(pos) {
            self.lock_rows_start(pos)
        } else {
            top
        }
    }

    /// Locks the present piece into the board and records the full rows
    /// among those its frame covers.
    pub fn put_down_play_box(&mut self, play_box: &mut PlayBox, game_lib: &GameLib)
        requires
            old(self).wf(),
            game_lib.wf(),
            old(play_box).wf(game_lib),
            old(play_box).placed(&*old(self), game_lib),
        ensures
            final(self).wf(),
            final(self).full_rows_visible == old(self).full_rows_visible,
            final(play_box).index is None,
            final(play_box).entities@.len() == 0,
            final(play_box).pos == old(play_box).pos,
            match old(play_box).index {
                Some(i) => {
                    &&& locked(
                        *old(self),
                        *final(self),
                        old(play_box).pos,
                        game_lib.cells_of(i),
                        old(play_box).entities@,
                    )
                    &&& final(self).full_rows@ == final(self).full_rows_in(
                        final(self).lock_rows_start(old(play_box).pos),
                        final(self).lock_rows_end(old(play_box).pos),
                    )
                },
                None => *final(self) == *old(self),
            },
    {
        if !play_box.is_valid() {
            return;
        }
        let pos = *play_box.pos();
        play_box.put_in_panel(game_lib, self);
        let rows = self.row_count();
        let start: usize = if pos.row < 0 {
            0
        } else if pos.row as usize > rows {
            rows
        } else {
            pos.row as usize
        };
        let top = pos.row as i64 + 4;
        let end: usize = if top > rows as i64 {
            rows
        } else if top < start as i64 {
            start
        } else {
            top as usize
        };
        let ghost mid = *self;
        self.check_full_rows(start, end);
        proof {
            let i = old(play_box).index.unwrap();
            let offs = game_lib.cells_of(i);
            let p = old(play_box).pos;
            let ids = old(play_box).entities@;
            assert(locked(*old(self), mid, p, offs, ids));
            assert(forall|r: int, c: int| #[trigger] self.cell(r, c) == mid.cell(r, c));
            assert(forall|j: int| 0 <= j < offs.len() ==>
                self.cell(#[trigger] target(p, offs[j]).0, target(p, offs[j]).1) == mid.cell(target(p, offs[j]).0, target(p, offs[j]).1));
            assert(locked(*old(self), *self, p, offs, ids));
        }
    }

    /// Whether the stack has reached the visible rows' top.
    pub fn reach_top(&self) -> (r: bool)
        ensures
            r == (self.height >= self.main_rows),
    {
        self.height >= self.main_rows
    }

    pub fn has_full_lines(&self) -> (r: bool)
        ensures
            r == (self.full_rows@.len() > 0),
    {
        self.full_rows.len() > 0
    }

    /// Shows the full rows if they were hidden, hides them if shown.
    pub fn toggle_full_rows_visibility(&mut self)
        ensures
            final(self).full_rows_visible == !old(self).full_rows_visible,
            final(self).boxes == old(self).boxes,
            final(self).full_rows == old(self).full_rows,
            final(self).height == old(self).height,
            final(self).main_rows == old(self).main_rows,
            final(self).play_region == old(self).play_region,
    {
        self.full_rows_visible = !self.full_rows_visible;
    }

    /// Removes the recorded full rows: every other row below the stack
    /// height moves down by the number of full rows beneath it, the rows
    /// left over at the top are emptied, and the height drops by the number
    /// of full rows.
    pub fn remove_full_rows(&mut self)
        requires
            old(self).wf(),
        ensures
            final(self).wf(),
            old(self).full_rows@.len() == 0 ==> *final(self) == *old(self),
            rows_removed(*old(self), *final(self)),
    {
        let k = self.full_rows.len();
        if k == 0 {
            return;
        }
        let ghost f = self.full_rows@;
        let ghost g = self.boxes@;
        let h = self.height;
        proof {
            lemma_increasing_gap(f, 0, k - 1);
        }
        let mut i: usize = 0;
        while i < k
            invariant
                self.shaped(),
                self.full_rows@ == f,
                self.height == h,
                self.rows() == g.len(),
                self.cols() == old(self).cols(),
                self.main_rows == old(self).main_rows,
                self.full_rows_visible == old(self).full_rows_visible,
                self.play_region == old(self).play_region,
                old(self).wf(),
                old(self).boxes@ == g,
                old(self).full_rows@ == f,
                old(self).height == h,
                k == f.len() > 0,
                i <= k,
                forall|t: int|
                    (if i < k { f[i as int] as int } else { h as int }) <= t < g.len() ==>
                        (#[trigger] self.boxes@[t])@ == g[t]@,
                forall|t: int| 0 <= t < f[0] ==> (#[trigger] self.boxes@[t])@ == g[t]@,
                forall|s: int|
                    f[0] < s < (if i < k { f[i as int] as int } else { h as int }) && !listed(f, s) ==> (
                    #[trigger] self.boxes@[s - count_below(f, s)])@ == g[s]@,
            decreases k - i,
        {
            let start = self.full_rows[i] + 1;
            let end = if i + 1 < k {
                self.full_rows[i + 1]
            } else {
                h
            };
            proof {
                lemma_increasing_gap(f, 0, i as int);
                if i + 1 < k {
                    lemma_increasing_gap(f, i as int, i + 1);
                }
            }
            let ghost before = self.boxes@;
            if start < end {
                self.copy_rows(start, end, i + 1);
            }
            proof {
                let lo = f[i as int] as int;
                assert forall|s: int|
                    f[0] < s < (if i + 1 < k { f[i + 1] as int } else { h as int }) && !listed(f, s) implies (
                    #[trigger] self.boxes@[s - count_below(f, s)])@ == g[s]@ by {
                    lemma_count_below(f, s);
                    let m = count_below(f, s);
                    if s < lo {
                        if m > i {
                            assert(f[i as int] <= f[m - 1]) by {
                                if i < m - 1 {
                                    lemma_increasing_gap(f, i as int, m - 1);
                                }
                            }
                        }
                        assert(m <= i);
                        assert(m < k);
                        if f[m] == s {
                            assert(listed(f, s));
                        }
                        if m < i {
                            lemma_increasing_gap(f, m, i as int);
                        }
                        assert(s - m < lo - i);
                        lemma_increasing_gap(f, 0, m - 1);
                        assert(0 <= s - m);
                        assert(before[s - m] == self.boxes@[s - m]);
                    } else {
                        if s == lo {
                            assert(listed(f, s));
                        }
                        lemma_count_below_between(f, s, i + 1);
                        assert(start <= s < end);
                    }
                }
            }
            i += 1;
        }
        proof {
            lemma_increasing_gap(f, 0, k - 1);
        }
        let clear_start = h - k;
        let ghost mid = self.boxes@;
        self.clear_rows(clear_start, h);
        self.height = h - k;
        self.full_rows.clear();
        proof {
            assert forall|s: int, c: int|
                0 <= s < h && !listed(f, s) && 0 <= c < old(self).cols()
                    implies self.cell(s - count_below(f, s), c) == #[trigger] old(self).cell(s, c) by {
                lemma_count_below(f, s);
                let m = count_below(f, s);
                if s < f[0] {
                    lemma_count_below_between(f, s, 0);
                    assert(mid[s]@ == g[s]@);
                } else {
                    if s == f[0] {
                        assert(listed(f, s));
                    }
                    if m < k {
                        if f[m] == s {
                            assert(listed(f, s));
                        }
                        lemma_increasing_gap(f, m, k - 1);
                    }
                    lemma_increasing_gap(f, 0, m - 1);
                    assert(mid[s - m]@ == g[s]@);
                }
                assert(0 <= s - m < h - k);
                assert(self.boxes@[s - m] == mid[s - m]);
            }
            assert forall|r: int, c: int|
                self.height <= r < self.rows() && 0 <= c < self.cols()
                    implies (#[trigger] self.boxes@[r]@[c]) is None by {
                if r >= h {
                    assert(old(self).boxes@[r]@[c] is None);
                }
            }
            assert forall|r: int, c: int|
                h - k <= r < self.rows() && 0 <= c < self.cols()
                    implies (#[trigger] self.cell(r, c)) is None by {
                assert(self.boxes@[r]@[c] is None);
            }
        }
    }

    /// Copies rows `[start, end)` down by `offset`, lowest first.
    fn copy_rows(&mut self, start: usize, end: usize, offset: usize)
        requires
            old(self).shaped(),
            offset <= start <= end <= old(self).rows(),
        ensures
            final(self).shaped(),
            final(self).rows() == old(self).rows(),
            final(self).cols() == old(self).cols(),
            final(self).full_rows == old(self).full_rows,
            final(self).height == old(self).height,
            final(self).main_rows == old(self).main_rows,
            final(self).full_rows_visible == old(self).full_rows_visible,
            final(self).play_region == old(self).play_region,
            forall|s: int| start <= s < end ==>
                (#[trigger] final(self).boxes@[s - offset])@ == old(self).boxes@[s]@,
            forall|t: int|
                0 <= t < old(self).rows() && !(start - offset <= t < end - offset) ==>
                    #[trigger] final(self).boxes@[t]
                    == old(self).boxes@[t],
    {
        let mut r = start;
        while r < end
            invariant
                self.shaped(),
                offset <= start <= r <= end <= self.rows(),
                self.rows() == old(self).rows(),
                self.cols() == old(self).cols(),
                self.full_rows == old(self).full_rows,
                self.height == old(self).height,
                self.main_rows == old(self).main_rows,
                self.full_rows_visible == old(self).full_rows_visible,
                self.play_region == old(self).play_region,
                forall|s: int| start <= s < r ==>
                    (#[trigger] self.boxes@[s - offset])@ == old(self).boxes@[s]@,
                forall|t: int|
                    0 <= t < old(self).rows() && !(start - offset <= t < r - offset) ==>
                        #[trigger] self.boxes@[t]
                        == old(self).boxes@[t],
            decreases end - r,
        {
            self.copy_row(r - offset, r);
            r += 1;
        }
    }

    /// Empties every cell of rows `[start, end)`.
    fn clear_rows(&mut self, start: usize, end: usize)
        requires
            old(self).shaped(),
            start <= end <= old(self).rows(),
        ensures
            final(self).shaped(),
            final(self).rows() == old(self).rows(),
            final(self).cols() == old(self).cols(),
            final(self).full_rows == old(self).full_rows,
            final(self).height == old(self).height,
            final(self).main_rows == old(self).main_rows,
            final(self).full_rows_visible == old(self).full_rows_visible,
            final(self).play_region == old(self).play_region,
            forall|r: int, c: int|
                start <= r < end && 0 <= c < final(self).cols() ==>
                    (#[trigger] final(self).boxes@[r]@[c]) is None,
            forall|t: int|
                0 <= t < old(self).rows() && !(start <= t < end) ==> #[trigger] final(self).boxes@[t]
                    == old(self).boxes@[t],
    {
        let cols = self.boxes[0].len();
        let mut row = start;
        while row < end
            invariant
                self.shaped(),
                start <= row <= end <= self.rows(),
                cols == self.cols(),
                self.rows() == old(self).rows(),
                self.cols() == old(self).cols(),
                self.full_rows == old(self).full_rows,
                self.height == old(self).height,
                self.main_rows == old(self).main_rows,
                self.full_rows_visible == old(self).full_rows_visible,
                self.play_region == old(self).play_region,
                forall|r: int, c: int|
                    start <= r < row && 0 <= c < cols ==> (#[trigger] self.boxes@[r]@[c]) is None,
                forall|t: int|
                    0 <= t < old(self).rows() && !(start <= t < row) ==> #[trigger] self.boxes@[t]
                        == old(self).boxes@[t],
            decreases end - row,
        {
            let mut col: usize = 0;
            let ghost before = self.boxes@;
            while col < cols
                invariant
                    self.shaped(),
                    start <= row < end <= self.rows(),
                    col <= cols,
                    cols == self.cols(),
                    self.rows() == old(self).rows(),
                    self.full_rows == old(self).full_rows,
                    self.height == old(self).height,
                    self.main_rows == old(self).main_rows,
                    self.full_rows_visible == old(self).full_rows_visible,
                    self.play_region == old(self).play_region,
                    forall|c: int| 0 <= c < col ==> (#[trigger] self.boxes@[row as int]@[c]) is None,
                    forall|t: int| 0 <= t < self.rows() && t != row ==>
                        #[trigger] self.boxes@[t] == before[t],
                decreases cols - col,
            {
                self.boxes[row][col] = None;
                proof {
                    assert forall|r: int| 0 <= r < self.rows()
                        implies (#[trigger] self.boxes@[r])@.len() == self.cols() by {
                        if r != row {
                            assert(self.boxes@[r] == before[r]);
                        }
                    }
                }
                col += 1;
            }
            row += 1;
        }
    }

    /// Makes row `dest_row` a copy of row `src_row`.
    fn copy_row(&mut self, dest_row: usize, src_row: usize)
        requires
            old(self).shaped(),
            dest_row < old(self).rows(),
            src_row < old(self).rows(),
        ensures
            final(self).shaped(),
            final(self).rows() == old(self).rows(),
            final(self).cols() == old(self).cols(),
            final(self).full_rows == old(self).full_rows,
            final(self).height == old(self).height,
            final(self).main_rows == old(self).main_rows,
            final(self).full_rows_visible == old(self).full_rows_visible,
            final(self).play_region == old(self).play_region,
            final(self).boxes@[dest_row as int]@ == old(self).boxes@[src_row as int]@,
            forall|t: int| 0 <= t < old(self).rows() && t != dest_row ==>
                #[trigger] final(self).boxes@[t] == old(self).boxes@[t],
    {
        let cols = self.boxes[0].len();
        let mut col: usize = 0;
        while col < cols
            invariant
                self.shaped(),
                dest_row < self.rows(),
                src_row < self.rows(),
                col <= cols,
                cols == self.cols(),
                self.rows() == old(self).rows(),
                self.full_rows == old(self).full_rows,
                self.height == old(self).height,
                self.main_rows == old(self).main_rows,
                self.full_rows_visible == old(self).full_rows_visible,
                self.play_region == old(self).play_region,
                forall|c: int| 0 <= c < col ==>
                    #[trigger] self.boxes@[dest_row as int]@[c] == old(self).boxes@[src_row as int]@[c],
                forall|c: int| col <= c < cols ==>
                    #[trigger] self.boxes@[src_row as int]@[c] == old(self).boxes@[src_row as int]@[c],
                forall|t: int| 0 <= t < self.rows() && t != dest_row ==>
                    #[trigger] self.boxes@[t] == old(self).boxes@[t],
            decreases cols - col,
        {
            let v = self.boxes[src_row][col];
            let ghost before = self.boxes@;
            self.boxes[dest_row][col] = v;
            proof {
                assert forall|r: int| 0 <= r < self.rows()
                    implies (#[trigger] self.boxes@[r])@.len() == self.cols() by {
                    if r != dest_row {
                        assert(self.boxes@[r] == before[r]);
                    }
                }
            }
            col += 1;
        }
        assert(self.boxes@[dest_row as int]@ =~= old(self).boxes@[src_row as int]@);
    }

    /// Writes `entity` into a free cell and raises the stack height to cover
    /// that row.
    pub fn put_in_entity(&mut self, row: i32, col: i32, entity: u64)
        requires
            old(self).wf(),
            old(self).free(row as int, col as int),
        ensures
            final(self).wf(),
            final(self).rows() == old(self).rows(),
            final(self).cols() == old(self).cols(),
            final(self).main_rows == old(self).main_rows,
            final(self).full_rows == old(self).full_rows,
            final(self).full_rows_visible == old(self).full_rows_visible,
            final(self).height == if old(self).height > row { old(self).height as int } else { row + 1 },
            forall|r: int, c: int|
                final(self).inside(r, c) ==> #[trigger] final(self).cell(r, c) == if r == row && c == col {
                    Some(entity)
                } else {
                    old(self).cell(r, c)
                },
    {
        let row = row as usize;
        let col = col as usize;
        self.boxes[row][col] = Some(entity);
        if row + 1 > self.height {
            self.height = row + 1;
        }
        proof {
            assert(self.boxes@[row as int]@ == old(self).boxes@[row as int]@.update(col as int, Some(entity)));
            assert(forall|r: int| 0 <= r < self.rows() && r != row ==> self.boxes@[r] == old(self).boxes@[r]);
            assert forall|r: int| 0 <= r < self.rows()
                implies (#[trigger] self.boxes@[r])@.len() == self.cols() by {
                assert(old(self).boxes@[r]@.len() == old(self).cols());
            }
            assert forall|r: int, c: int|
                self.height <= r < self.rows() && 0 <= c < self.cols()
                    implies (#[trigger] self.boxes@[r]@[c]) is None by {
                assert(old(self).boxes@[r]@[c] is None);
            }
        }
    }
}

} // verus!
