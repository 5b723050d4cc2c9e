//! The piece catalog: rotation bitmaps, their bounding boxes and cell offsets.

use vstd::prelude::*;

verus! {

/// Width and height of a bitmap's square frame.
pub const PLAY_BOX_BITMAP_SIZE: usize = 4;

/// Number of rotations of every piece type.
pub const PLAY_BOX_ROTATE_COUNT: usize = 4;

/// A 4×4 occupancy mask; a non-zero entry is a set cell. Array row 3 is the
/// bottom of the piece's local frame, array row 0 its top.
pub type BitMap = [[u8; PLAY_BOX_BITMAP_SIZE]; PLAY_BOX_BITMAP_SIZE];

/// Whether the mask has a set cell at array row `r`, column `c`.
pub open spec fn bit(bmp: BitMap, r: int, c: int) -> bool {
    bmp[r][c] != 0
}

/// A width and a height, in cells.
#[derive(Debug, Clone, Copy, PartialEq, Eq, Structural)]
pub struct ISize {
    pub width: u32,
    pub height: u32,
}

/// A board position (row grows upward, column grows rightward), or an
/// offset inside a piece's local frame.
#[derive(Debug, Clone, Copy, PartialEq, Eq, Structural, Default)]
pub struct BoxPos {
    pub row: i32,
    pub col: i32,
}

impl BoxPos {
    pub fn new(row: i32, col: i32) -> (r: Self)
        ensures
            r.row == row,
            r.col == col,
    {
        Self { row, col }
    }
}


/// Whether some cell of column `c` is set.
pub open spec fn col_used(bmp: BitMap, c: int) -> bool {
    exists|r: int| 0 <= r < 4 && #[trigger] bit(bmp, r, c)
}

/// Whether some cell of array row `r` is set.
pub open spec fn row_used(bmp: BitMap, r: int) -> bool {
    exists|c: int| 0 <= c < 4 && #[trigger] bit(bmp, r, c)
}

/// The first used column at or after `from`, or 4 if there is none.
pub open spec fn lowest_col(bmp: BitMap, from: int) -> int
    decreases 4 - from,
{
    if from >= 4 {
        4
    } else if col_used(bmp, from) {
        from
    } else {
        lowest_col(bmp, from + 1)
    }
}

/// The last used column before `to`, or -1 if there is none.
pub open spec fn highest_col(bmp: BitMap, to: int) -> int
    decreases to,
{
    if to <= 0 {
        -1
    } else if col_used(bmp, to - 1) {
        to - 1
    } else {
        highest_col(bmp, to - 1)
    }
}

/// The first used array row at or after `from`, or 4 if there is none.
pub open spec fn lowest_row(bmp: BitMap, from: int) -> int
    decreases 4 - from,
{
    if from >= 4 {
        4
    } else if row_used(bmp, from) {
        from
    } else {
        lowest_row(bmp, from + 1)
    }
}

/// The last used array row before `to`, or -1 if there is none.
pub open spec fn highest_row(bmp: BitMap, to: int) -> int
    decreases to,
{
    if to <= 0 {
        -1
    } else if row_used(bmp, to - 1) {
        to - 1
    } else {
        highest_row(bmp, to - 1)
    }
}

/// Width of the tightest box around the set cells (0 for an empty mask).
pub open spec fn bbox_width(bmp: BitMap) -> int {
    if lowest_col(bmp, 0) == 4 {
        0
    } else {
        highest_col(bmp, 4) - lowest_col(bmp, 0) + 1
    }
}

/// Height of the tightest box around the set cells (0 for an empty mask).
pub open spec fn bbox_height(bmp: BitMap) -> int {
    if lowest_row(bmp, 0) == 4 {
        0
    } else {
        highest_row(bmp, 4) - lowest_row(bmp, 0) + 1
    }
}

proof fn lemma_col_extent(bmp: BitMap, from: int, to: int)
    requires
        0 <= from <= 4,
        0 <= to <= 4,
    ensures
        from <= lowest_col(bmp, from) <= 4,
        -1 <= highest_col(bmp, to) < to,
        lowest_col(bmp, from) < 4 ==> col_used(bmp, lowest_col(bmp, from)),
        forall|m: int| 0 <= m < to && col_used(bmp, m) ==> m <= highest_col(bmp, to),
    decreases 4 - from + to,
{
    if from < 4 {
        lemma_col_extent(bmp, from + 1, to);
    }
    if to > 0 {
        lemma_col_extent(bmp, from, to - 1);
    }
}

proof fn lemma_row_extent(bmp: BitMap, from: int, to: int)
    requires
        0 <= from <= 4,
        0 <= to <= 4,
    ensures
        from <= lowest_row(bmp, from) <= 4,
        -1 <= highest_row(bmp, to) < to,
        lowest_row(bmp, from) < 4 ==> row_used(bmp, lowest_row(bmp, from)),
        forall|m: int| 0 <= m < to && row_used(bmp, m) ==> m <= highest_row(bmp, to),
    decreases 4 - from + to,
{
    if from < 4 {
        lemma_row_extent(bmp, from + 1, to);
    }
    if to > 0 {
        lemma_row_extent(bmp, from, to - 1);
    }
}

/// A bounding box is at most the frame, and its corner lies in the frame
/// or, for an empty mask, just past it.
pub proof fn lemma_bbox_bounds(bmp: BitMap)
    ensures
        0 <= bbox_width(bmp) <= 4,
        0 <= bbox_height(bmp) <= 4,
        0 <= bbox_corner(bmp).row <= 4,
        0 <= bbox_corner(bmp).col <= 4,
{
    lemma_col_extent(bmp, 0, 4);
    lemma_row_extent(bmp, 0, 4);
}

/// A bitmap with a non-empty bounding box has a set cell.
pub proof fn lemma_bitmap_has_cell(bmp: BitMap)
    requires
        bbox_height(bmp) != 0,
    ensures
        exists|r: int, c: int| 0 <= r < 4 && 0 <= c < 4 && #[trigger] bit(bmp, r, c),
{
    lemma_row_extent(bmp, 0, 4);
    let r = lowest_row(bmp, 0);
    assert(row_used(bmp, r));
}

/// Offset, in the local frame, of the bounding box's bottom-left corner:
/// the offset row of the lowest set cell and the leftmost used column.
pub open spec fn bbox_corner(bmp: BitMap) -> BoxPos {
    BoxPos { row: (3 - highest_row(bmp, 4)) as i32, col: lowest_col(bmp, 0) as i32 }
}

/// Whether column `c` of the mask has a set cell.
fn col_is_used(bmp: &BitMap, c: usize) -> (r: bool)
    requires
        c < 4,
    ensures
        r == col_used(*bmp, c as int),
{
    let mut r: usize = 0;
    while r < PLAY_BOX_BITMAP_SIZE
        invariant
            r <= 4,
            c < 4,
            forall|rr: int| 0 <= rr < r ==> !#[trigger] bit(*bmp, rr, c as int),
        decreases 4 - r,
    {
        if bmp[r][c] != 0 {
            assert(bit(*bmp, r as int, c as int));
            return true;
        }
        r += 1;
    }
    false
}

/// Whether array row `r` of the mask has a set cell.
fn row_is_used(bmp: &BitMap, r: usize) -> (u: bool)
    requires
        r < 4,
    ensures
        u == row_used(*bmp, r as int),
{
    let mut c: usize = 0;
    while c < PLAY_BOX_BITMAP_SIZE
        invariant
            c <= 4,
            r < 4,
            forall|cc: int| 0 <= cc < c ==> !#[trigger] bit(*bmp, r as int, cc),
        decreases 4 - c,
    {
        if bmp[r][c] != 0 {
            assert(bit(*bmp, r as int, c as int));
            return true;
        }
        c += 1;
    }
    false
}

proof fn lemma_lowest_col(bmp: BitMap, from: int, m: int)
    requires
        0 <= from <= m <= 4,
        m < 4 ==> col_used(bmp, m),
        forall|j: int| from <= j < m ==> !col_used(bmp, j),
    ensures
        lowest_col(bmp, from) == m,
    decreases m - from,
{
    if from < m {
        lemma_lowest_col(bmp, from + 1, m);
    }
}

proof fn lemma_highest_col(bmp: BitMap, to: int, m: int)
    requires
        -1 <= m < to <= 4,
        m >= 0 ==> col_used(bmp, m),
        forall|j: int| m < j < to ==> !col_used(bmp, j),
    ensures
        highest_col(bmp, to) == m,
    decreases to - m,
{
    if m < to - 1 {
        lemma_highest_col(bmp, to - 1, m);
    }
}

proof fn lemma_lowest_row(bmp: BitMap, from: int, m: int)
    requires
        0 <= from <= m <= 4,
        m < 4 ==> row_used(bmp, m),
        forall|j: int| from <= j < m ==> !row_used(bmp, j),
    ensures
        lowest_row(bmp, from) == m,
    decreases m - from,
{
    if from < m {
        lemma_lowest_row(bmp, from + 1, m);
    }
}

proof fn lemma_highest_row(bmp: BitMap, to: int, m: int)
    requires
        -1 <= m < to <= 4,
        m >= 0 ==> row_used(bmp, m),
        forall|j: int| m < j < to ==> !row_used(bmp, j),
    ensures
        highest_row(bmp, to) == m,
    decreases to - m,
{
    if m < to - 1 {
        lemma_highest_row(bmp, to - 1, m);
    }
}

/// The set cells among the first `n` frame positions, position `4 * lr + c`
/// being offset row `lr` (array row `3 - lr`) and column `c`.
pub open spec fn frame_cells(bmp: BitMap, n: int) -> Seq<BoxPos>
    decreases n,
{
    if n <= 0 {
        seq![]
    } else {
        let prev = frame_cells(bmp, n - 1);
        let lr = (n - 1) / 4;
        let c = (n - 1) % 4;
        if bit(bmp, 3 - lr, c) {
            prev.push(BoxPos { row: lr as i32, col: c as i32 })
        } else {
            prev
        }
    }
}

/// The offsets of a bitmap's set cells: bottom frame row first, left to right.
pub open spec fn cell_offsets(bmp: BitMap) -> Seq<BoxPos> {
    frame_cells(bmp, 16)
}

/// Frame position of an offset.
pub open spec fn frame_index(p: BoxPos) -> int {
    4 * p.row + p.col
}

/// The offsets are set cells of the frame, strictly increasing in frame
/// position, and every set cell is among them.
pub proof fn lemma_frame_cells(bmp: BitMap, n: int)
    requires
        0 <= n <= 16,
    ensures
        forall|i: int| 0 <= i < frame_cells(bmp, n).len() ==> {
            let p = #[trigger] frame_cells(bmp, n)[i];
            &&& 0 <= p.row < 4
            &&& 0 <= p.col < 4
            &&& frame_index(p) < n
            &&& bit(bmp, 3 - p.row, p.col as int)
        },
        forall|i: int, j: int|
            0 <= i < j < frame_cells(bmp, n).len() ==> frame_index(#[trigger] frame_cells(bmp, n)[i])
                < frame_index(#[trigger] frame_cells(bmp, n)[j]),
        forall|lr: int, c: int|
            0 <= lr < 4 && 0 <= c < 4 && 4 * lr + c < n && #[trigger] bit(bmp, 3 - lr, c) ==> exists|i: int|
                0 <= i < frame_cells(bmp, n).len() && #[trigger] frame_cells(bmp, n)[i] == (BoxPos { row: lr as i32, col: c as i32 }),
    decreases n,
{
    if n > 0 {
        lemma_frame_cells(bmp, n - 1);
        let prev = frame_cells(bmp, n - 1);
        let lr = (n - 1) / 4;
        let c = (n - 1) % 4;
        let cur = frame_cells(bmp, n);
        assert forall|l2: int, c2: int|
            0 <= l2 < 4 && 0 <= c2 < 4 && 4 * l2 + c2 < n && #[trigger] bit(bmp, 3 - l2, c2)
                implies exists|i: int|
                0 <= i < cur.len() && #[trigger] cur[i] == (BoxPos { row: l2 as i32, col: c2 as i32 }) by {
            if 4 * l2 + c2 == n - 1 {
                assert(l2 == lr && c2 == c);
                assert(cur[cur.len() - 1] == (BoxPos { row: l2 as i32, col: c2 as i32 }));
            } else {
                let i = choose|i: int|
                    0 <= i < prev.len() && #[trigger] prev[i] == (BoxPos { row: l2 as i32, col: c2 as i32 });
                assert(cur[i] == prev[i]);
            }
        }
    }
}

/// Lowers `prev_value` to `new_value` when that is smaller, or sets it when
/// it holds nothing yet.
pub fn set_opt_min(prev_value: &mut Option<usize>, new_value: &usize)
    ensures
        *final(prev_value) == match *old(prev_value) {
            Some(v) => Some(if *new_value < v { *new_value } else { v }),
            None => Some(*new_value),
        },
{
    if let Some(value) = prev_value {
        if *new_value < *value {
            *prev_value = Some(*new_value);
        }
    } else {
        *prev_value = Some(*new_value);
    }
}

/// Raises `prev_value` to `new_value` when that is larger, or sets it when
/// it holds nothing yet.
pub fn set_opt_max(prev_value: &mut Option<usize>, new_value: &usize)
    ensures
        *final(prev_value) == match *old(prev_value) {
            Some(v) => Some(if *new_value > v { *new_value } else { v }),
            None => Some(*new_value),
        },
{
    if let Some(value) = prev_value {
        if *new_value > *value {
            *prev_value = Some(*new_value);
        }
    } else {
        *prev_value = Some(*new_value);
    }
}

/// One piece type: a bitmap per rotation, a level and an RGBA colour.
#[derive(Debug)]
pub struct PlayBoxConfig {
    pub bitmaps: [BitMap; PLAY_BOX_ROTATE_COUNT],
    pub level: u32,
    pub color: [u8; 4],
}

impl PlayBoxConfig {
    /// The bounding box of one rotation's bitmap.
    pub open spec fn bmp_size_spec(&self, rotate_index: int) -> ISize {
        ISize {
            width: bbox_width(self.bitmaps[rotate_index]) as u32,
            height: bbox_height(self.bitmaps[rotate_index]) as u32,
        }
    }

    /// The bounding box of the bitmap of one rotation.
    pub fn bmp_size(&self, rotate_index: usize) -> (r: ISize)
        requires
            rotate_index < PLAY_BOX_ROTATE_COUNT,
        ensures
            r.width == bbox_width(self.bitmaps[rotate_index as int]),
            r.height == bbox_height(self.bitmaps[rotate_index as int]),
            r == self.bmp_size_spec(rotate_index as int),
    {
        let mut min_col: Option<usize> = None;
        let mut max_col: Option<usize> = None;
        let mut min_row: Option<usize> = None;
        let mut max_row: Option<usize> = None;
        let bmp = self.bitmaps[rotate_index];

        let mut row: usize = 0;
        while row < PLAY_BOX_BITMAP_SIZE
            invariant
                row <= 4,
                bmp == self.bitmaps[rotate_index as int],
                min_col is None <==> (forall|r: int, c: int|
                    0 <= r < row && 0 <= c < 4 ==> !bit(bmp, r, c)),
                max_col is None <==> min_col is None,
                min_col matches Some(m) ==> m < 4 && col_used(bmp, m as int) && (forall|r: int, c: int|
                    0 <= r < row && 0 <= c < m ==> !bit(bmp, r, c)),
                max_col matches Some(m) ==> m < 4 && col_used(bmp, m as int) && (forall|r: int, c: int|
                    0 <= r < row && m < c < 4 ==> !bit(bmp, r, c)),
                min_row is None <==> (forall|r: int| 0 <= r < row ==> !row_used(bmp, r)),
                max_row is None <==> min_row is None,
                min_row matches Some(m) ==> m < row && row_used(bmp, m as int) && (forall|r: int|
                    0 <= r < m ==> !row_used(bmp, r)),
                max_row matches Some(m) ==> m < row && row_used(bmp, m as int) && (forall|r: int|
                    m < r < row ==> !row_used(bmp, r)),
            decreases 4 - row,
        {
            let mut empty_row = true;
            let mut col: usize = 0;
            while col < PLAY_BOX_BITMAP_SIZE
                invariant
                    row < 4,
                    col <= 4,
                    bmp == self.bitmaps[rotate_index as int],
                    empty_row <==> (forall|c: int| 0 <= c < col ==> !bit(bmp, row as int, c)),
                    min_col is None <==> (forall|r: int, c: int|
                        (0 <= r < row && 0 <= c < 4) || (r == row && 0 <= c < col) ==> !bit(bmp, r, c)),
                    max_col is None <==> min_col is None,
                    min_col matches Some(m) ==> m < 4 && col_used(bmp, m as int) && (forall|r: int, c: int|
                        0 <= r <= row && 0 <= c < m ==> (r < row || c < col ==> !bit(bmp, r, c))),
                    max_col matches Some(m) ==> m < 4 && col_used(bmp, m as int) && (forall|r: int, c: int|
                        0 <= r <= row && m < c < 4 ==> (r < row || c < col ==> !bit(bmp, r, c))),
                decreases 4 - col,
            {
                if bmp[row][col] != 0 {
                    assert(bit(bmp, row as int, col as int));
                    set_opt_min(&mut min_col, &col);
                    set_opt_max(&mut max_col, &col);
                    empty_row = false;
                }
                col += 1;
            }

            if !empty_row {
                set_opt_min(&mut min_row, &row);
                set_opt_max(&mut max_row, &row);
            }
            assert(empty_row <==> !row_used(bmp, row as int));
            row += 1;
        }

        let width: usize = if let (Some(min), Some(max)) = (min_col, max_col) {
            max - min + 1
        } else {
            0
        };

        let height: usize = if let (Some(min), Some(max)) = (min_row, max_row) {
            max - min + 1
        } else {
            0
        };

        proof {
            match (min_col, max_col) {
                (Some(lo), Some(hi)) => {
                    lemma_lowest_col(bmp, 0, lo as int);
                    lemma_highest_col(bmp, 4, hi as int);
                },
                _ => {
                    lemma_lowest_col(bmp, 0, 4);
                },
            }
            match (min_row, max_row) {
                (Some(lo), Some(hi)) => {
                    lemma_lowest_row(bmp, 0, lo as int);
                    lemma_highest_row(bmp, 4, hi as int);
                },
                _ => {
                    lemma_lowest_row(bmp, 0, 4);
                },
            }
        }

        ISize { width: width as u32, height: height as u32 }
    }

    /// The set cells of one rotation as offsets in the local frame: the
    /// bitmap's bottom array row is offset row 0, listed bottom row first and
    /// left to right.
    pub fn box_pos(&self, rotate_index: usize) -> (r: Vec<BoxPos>)
        requires
            rotate_index < PLAY_BOX_ROTATE_COUNT,
        ensures
            r@ == cell_offsets(self.bitmaps[rotate_index as int]),
    {
        let bmp = &self.bitmaps[rotate_index];
        let mut result: Vec<BoxPos> = Vec::new();
        let mut row: usize = 0;
        while row < PLAY_BOX_BITMAP_SIZE
            invariant
                row <= 4,
                *bmp == self.bitmaps[rotate_index as int],
                result@ == frame_cells(*bmp, 4 * row),
            decreases 4 - row,
        {
            let r = PLAY_BOX_BITMAP_SIZE - 1 - row;
            let mut col: usize = 0;
            while col < PLAY_BOX_BITMAP_SIZE
                invariant
                    row < 4,
                    col <= 4,
                    r == 3 - row,
                    *bmp == self.bitmaps[rotate_index as int],
                    result@ == frame_cells(*bmp, 4 * row + col),
                decreases 4 - col,
            {
                proof {
                    let n = 4 * row + col + 1;
                    assert((n - 1) / 4 == row as int && (n - 1) % 4 == col as int);
                }
                if bmp[r][col] != 0 {
                    result.push(BoxPos::new(row as i32, col as i32));
                }
                col += 1;
            }
            row += 1;
        }
        result
    }

    /// Where the bounding box of one rotation's bitmap starts in the frame.
    pub fn bmp_corner(&self, rotate_index: usize) -> (r: BoxPos)
        requires
            rotate_index < PLAY_BOX_ROTATE_COUNT,
        ensures
            r == bbox_corner(self.bitmaps[rotate_index as int]),
    {
        let bmp = self.bitmaps[rotate_index];
        let mut col: usize = 0;
        while col < PLAY_BOX_BITMAP_SIZE && !col_is_used(&bmp, col)
            invariant
                col <= 4,
                forall|j: int| 0 <= j < col ==> !col_used(bmp, j),
            decreases 4 - col,
        {
            col += 1;
        }
        let mut lr: usize = 0;
        while lr < PLAY_BOX_BITMAP_SIZE && !row_is_used(&bmp, PLAY_BOX_BITMAP_SIZE - 1 - lr)
            invariant
                lr <= 4,
                forall|j: int| 3 - lr < j < 4 ==> !row_used(bmp, j),
            decreases 4 - lr,
        {
            lr += 1;
        }
        proof {
            lemma_lowest_col(bmp, 0, col as int);
            lemma_highest_row(bmp, 4, 3 - lr);
        }
        BoxPos::new(lr as i32, col as i32)
    }

    /// The RGBA colour of the piece type.
    pub fn color(&self) -> (r: [u8; 4])
        ensures
            r == self.color,
    {
        self.color
    }
}


/// A piece type and one of its rotations.
#[derive(Debug, Clone, Copy, PartialEq, Eq, Structural)]
pub struct BoxIndex {
    pub type_index: usize,
    pub rotate_index: usize,
}

impl BoxIndex {
    /// Steps to the next rotation, wrapping after the last.
    pub fn rotate(&mut self)
        requires
            old(self).rotate_index < PLAY_BOX_ROTATE_COUNT,
        ensures
            final(self).type_index == old(self).type_index,
            final(self).rotate_index == (old(self).rotate_index + 1) % (PLAY_BOX_ROTATE_COUNT as int),
    {
        self.rotate_index = (self.rotate_index + 1) % PLAY_BOX_ROTATE_COUNT;
    }
}

/// Largest number of rows or columns a board may have, so that every
/// position stays far inside `i32`.
pub const MAX_PANEL_SIDE: usize = 1000000;

/// Board dimensions: `size` is `[rows, cols]`; rows at index `main_rows` and
/// above form the hidden spawn buffer.
#[derive(Debug, Clone, Copy)]
pub struct GamePanelConfig {
    pub size: [usize; 2],
    pub main_rows: usize,
}

impl GamePanelConfig {
    pub open spec fn rows(&self) -> int {
        self.size[0] as int
    }

    pub open spec fn cols(&self) -> int {
        self.size[1] as int
    }

    /// At least one row and column, none too many, and the visible rows a
    /// part of all rows.
    pub open spec fn valid(&self) -> bool {
        &&& 1 <= self.rows() <= MAX_PANEL_SIDE
        &&& 1 <= self.cols() <= MAX_PANEL_SIDE
        &&& self.main_rows <= self.rows()
    }

    pub fn row_count(&self) -> (r: usize)
        ensures
            r == self.rows(),
    {
        self.size[0]
    }

    pub fn col_count(&self) -> (r: usize)
        ensures
            r == self.cols(),
    {
        self.size[1]
    }

    pub fn is_valid(&self) -> (r: bool)
        ensures
            r == self.valid(),
    {
        let rows = self.row_count();
        let cols = self.col_count();
        1 <= rows && rows <= MAX_PANEL_SIDE && 1 <= cols && cols <= MAX_PANEL_SIDE && self.main_rows
            <= rows
    }
}

/// The piece catalog.
#[derive(Debug)]
pub struct BoxConfig {
    pub play_boxes: Vec<PlayBoxConfig>,
}

impl BoxConfig {
    pub open spec fn bitmap(&self, t: int, r: int) -> BitMap {
        self.play_boxes@[t].bitmaps[r]
    }

    pub fn play_box_type_count(&self) -> (r: usize)
        ensures
            r == self.play_boxes@.len(),
    {
        self.play_boxes.len()
    }

    pub fn play_box_bitmap(&self, index: &BoxIndex) -> (r: &BitMap)
        requires
            index.type_index < self.play_boxes@.len(),
            index.rotate_index < PLAY_BOX_ROTATE_COUNT,
        ensures
            *r == self.bitmap(index.type_index as int, index.rotate_index as int),
    {
        &self.play_boxes[index.type_index].bitmaps[index.rotate_index]
    }
}

/// Everything the engine reads from its configuration. Times are in
/// microseconds.
#[derive(Debug)]
pub struct GameConfig {
    pub game_panel_config: GamePanelConfig,
    pub box_config: BoxConfig,
    pub drop_down_interval: u64,
    pub fast_down_interval: u64,
    pub fast_down_max_steps: u32,
    pub flash_full_line_interval: u64,
    pub flash_full_line_max_count: u32,
}

impl GameConfig {
    pub open spec fn intervals_valid(&self) -> bool {
        &&& self.drop_down_interval > 0
        &&& self.fast_down_interval > 0
        &&& self.flash_full_line_interval > 0
    }

    /// Whether some bitmap of the catalog has no set cell.
    pub open spec fn has_empty_bitmap(&self) -> bool {
        exists|t: int, r: int|
            0 <= t < self.box_config.play_boxes@.len() && 0 <= r < 4 && bbox_height(
                #[trigger] self.box_config.bitmap(t, r),
            ) == 0
    }

    /// Whether some piece type has rotations with different numbers of
    /// set cells.
    pub open spec fn has_uneven_rotations(&self) -> bool {
        exists|t: int, r: int|
            0 <= t < self.box_config.play_boxes@.len() && 0 <= r < 4 && cell_offsets(
                #[trigger] self.box_config.bitmap(t, r),
            ).len() != cell_offsets(self.box_config.bitmap(t, 0)).len()
    }

    pub open spec fn valid(&self) -> bool {
        &&& self.game_panel_config.valid()
        &&& self.intervals_valid()
        &&& self.box_config.play_boxes@.len() > 0
        &&& !self.has_empty_bitmap()
        &&& !self.has_uneven_rotations()
    }
}

/// Why a configuration cannot run a game.
#[derive(Debug, Clone, Copy, PartialEq, Eq, Structural)]
pub enum ConfigError {
    /// No rows or columns, too many of them, or more visible rows than rows.
    BadPanelSize,
    /// A drop, fast-drop or flash interval of zero.
    ZeroInterval,
    /// The catalog has no piece type.
    NoPieceTypes,
    /// A rotation bitmap without any set cell.
    EmptyBitmap { type_index: usize, rotate_index: usize },
    /// A piece type whose rotations cover different numbers of cells.
    UnevenRotations { type_index: usize },
}

/// The configuration with the bounding box and cell offsets of every piece
/// type and rotation computed once.
#[derive(Debug)]
pub struct GameLib {
    pub config: GameConfig,
    pub box_sizes: Vec<Vec<ISize>>,
    pub box_positions: Vec<Vec<Vec<BoxPos>>>,
}

impl GameLib {
    pub open spec fn type_count(&self) -> int {
        self.config.box_config.play_boxes@.len() as int
    }

    pub open spec fn bitmap(&self, index: BoxIndex) -> BitMap {
        self.config.box_config.bitmap(index.type_index as int, index.rotate_index as int)
    }

    /// The index names a piece type and a rotation.
    pub open spec fn valid_index(&self, index: BoxIndex) -> bool {
        index.type_index < self.type_count() && index.rotate_index < PLAY_BOX_ROTATE_COUNT
    }

    pub open spec fn size_of(&self, index: BoxIndex) -> ISize {
        self.box_sizes@[index.type_index as int]@[index.rotate_index as int]
    }

    pub open spec fn cells_of(&self, index: BoxIndex) -> Seq<BoxPos> {
        self.box_positions@[index.type_index as int]@[index.rotate_index as int]@
    }

    pub open spec fn wf(&self) -> bool {
        &&& self.config.valid()
        &&& self.box_sizes@.len() == self.type_count()
        &&& self.box_positions@.len() == self.type_count()
        &&& forall|t: int|
            0 <= t < self.type_count() ==> (#[trigger] self.box_sizes@[t])@.len() == 4
                && self.box_positions@[t]@.len() == 4
        &&& forall|index: BoxIndex| #[trigger]
            self.valid_index(index) ==> self.size_of(index) == (ISize {
                width: bbox_width(self.bitmap(index)) as u32,
                height: bbox_height(self.bitmap(index)) as u32,
            }) && self.cells_of(index) == cell_offsets(self.bitmap(index))
    }

    /// Checks the configuration and caches the bounding box and the cell
    /// offsets of every bitmap.
    pub fn new(config: GameConfig) -> (r: Result<Self, ConfigError>)
        ensures
            r is Err && r->Err_0 == ConfigError::BadPanelSize <==> !config.game_panel_config.valid(),
            r is Err && r->Err_0 == ConfigError::ZeroInterval <==> config.game_panel_config.valid()
                && !config.intervals_valid(),
            r is Err && r->Err_0 == ConfigError::NoPieceTypes <==> config.game_panel_config.valid()
                && config.intervals_valid() && config.box_config.play_boxes@.len() == 0,
            r is Err && r->Err_0 is EmptyBitmap <==> config.game_panel_config.valid()
                && config.intervals_valid() && config.box_config.play_boxes@.len() > 0
                && config.has_empty_bitmap(),
            r matches Err(ConfigError::EmptyBitmap { type_index, rotate_index }) ==> type_index
                < config.box_config.play_boxes@.len() && rotate_index < 4 && bbox_height(
                config.box_config.bitmap(type_index as int, rotate_index as int),
            ) == 0,
            r is Err && r->Err_0 is UnevenRotations <==> config.game_panel_config.valid()
                && config.intervals_valid() && config.box_config.play_boxes@.len() > 0
                && !config.has_empty_bitmap() && config.has_uneven_rotations(),
            r matches Err(ConfigError::UnevenRotations { type_index }) ==> type_index
                < config.box_config.play_boxes@.len() && exists|r: int|
                0 <= r < 4 && cell_offsets(#[trigger] config.box_config.bitmap(type_index as int, r)).len()
                    != cell_offsets(config.box_config.bitmap(type_index as int, 0)).len(),
            r is Ok <==> config.valid(),
            r matches Ok(lib) ==> lib.wf() && lib.config == config,
    {
        if !config.game_panel_config.is_valid() {
            return Err(ConfigError::BadPanelSize);
        }
        if config.drop_down_interval == 0 || config.fast_down_interval == 0
            || config.flash_full_line_interval == 0 {
            return Err(ConfigError::ZeroInterval);
        }
        if config.box_config.play_boxes.len() == 0 {
            return Err(ConfigError::NoPieceTypes);
        }
        let box_sizes = Self::init_box_sizes(&config.box_config.play_boxes);
        let n = box_sizes.len();
        proof {
            assert forall|i: int, j: int| 0 <= i < n && 0 <= j < 4 implies (
            #[trigger] box_sizes@[i]@[j]).height == bbox_height(config.box_config.bitmap(i, j)) by {
                lemma_bbox_bounds(config.box_config.bitmap(i, j));
            }
        }
        let mut t: usize = 0;
        while t < n
            invariant
                n == box_sizes@.len() == config.box_config.play_boxes@.len(),
                config.game_panel_config.valid(),
                config.intervals_valid(),
                t <= n,
                forall|i: int| 0 <= i < n ==> (#[trigger] box_sizes@[i])@.len() == 4,
                forall|i: int, j: int|
                    0 <= i < n && 0 <= j < 4 ==> (#[trigger] box_sizes@[i]@[j]).height == bbox_height(
                        config.box_config.bitmap(i, j),
                    ),
                forall|i: int, j: int|
                    0 <= i < t && 0 <= j < 4 ==> bbox_height(#[trigger] config.box_config.bitmap(i, j))
                        != 0,
            decreases n - t,
        {
            let mut r: usize = 0;
            while r < PLAY_BOX_ROTATE_COUNT
                invariant
                    n == box_sizes@.len() == config.box_config.play_boxes@.len(),
                    config.game_panel_config.valid(),
                    config.intervals_valid(),
                    t < n,
                    r <= 4,
                    forall|i: int| 0 <= i < n ==> (#[trigger] box_sizes@[i])@.len() == 4,
                    forall|i: int, j: int|
                        0 <= i < n && 0 <= j < 4 ==> (#[trigger] box_sizes@[i]@[j]).height
                            == bbox_height(config.box_config.bitmap(i, j)),
                    forall|i: int, j: int|
                        (0 <= i < t && 0 <= j < 4) || (i == t && 0 <= j < r) ==> bbox_height(
                            #[trigger] config.box_config.bitmap(i, j),
                        ) != 0,
                decreases 4 - r,
            {
                if box_sizes[t][r].height == 0 {
                    assert(bbox_height(config.box_config.bitmap(t as int, r as int)) == 0);
                    return Err(ConfigError::EmptyBitmap { type_index: t, rotate_index: r });
                }
                r += 1;
            }
            t += 1;
        }
        let box_positions = Self::init_box_positions(&config.box_config.play_boxes);
        let mut t: usize = 0;
        while t < n
            invariant
                n == box_positions@.len() == config.box_config.play_boxes@.len(),
                t <= n,
                config.game_panel_config.valid(),
                config.intervals_valid(),
                !config.has_empty_bitmap(),
                forall|i: int| 0 <= i < n ==> (#[trigger] box_positions@[i])@.len() == 4,
                forall|i: int, j: int|
                    0 <= i < n && 0 <= j < 4 ==> (#[trigger] box_positions@[i]@[j])@ == cell_offsets(
                        config.box_config.bitmap(i, j),
                    ),
                forall|i: int, j: int|
                    0 <= i < t && 0 <= j < 4 ==> cell_offsets(#[trigger] config.box_config.bitmap(i, j)).len()
                        == cell_offsets(config.box_config.bitmap(i, 0)).len(),
            decreases n - t,
        {
            let count = box_positions[t][0].len();
            let mut r: usize = 1;
            while r < PLAY_BOX_ROTATE_COUNT
                invariant
                    n == box_positions@.len() == config.box_config.play_boxes@.len(),
                    t < n,
                    1 <= r <= 4,
                    config.game_panel_config.valid(),
                    config.intervals_valid(),
                    !config.has_empty_bitmap(),
                    count == cell_offsets(config.box_config.bitmap(t as int, 0)).len(),
                    forall|i: int| 0 <= i < n ==> (#[trigger] box_positions@[i])@.len() == 4,
                    forall|i: int, j: int|
                        0 <= i < n && 0 <= j < 4 ==> (#[trigger] box_positions@[i]@[j])@ == cell_offsets(
                            config.box_config.bitmap(i, j),
                        ),
                    forall|i: int, j: int|
                        (0 <= i < t && 0 <= j < 4) || (i == t && 0 <= j < r) ==> cell_offsets(
                            #[trigger] config.box_config.bitmap(i, j),
                        ).len() == cell_offsets(config.box_config.bitmap(i, 0)).len(),
                decreases 4 - r,
            {
                if box_positions[t][r].len() != count {
                    assert(cell_offsets(config.box_config.bitmap(t as int, r as int)).len() != count);
                    return Err(ConfigError::UnevenRotations { type_index: t });
                }
                r += 1;
            }
            t += 1;
        }
        let lib = GameLib { config, box_sizes, box_positions };
        proof {
            assert forall|index: BoxIndex| #[trigger] lib.valid_index(index) implies lib.size_of(index)
                == (ISize {
                width: bbox_width(lib.bitmap(index)) as u32,
                height: bbox_height(lib.bitmap(index)) as u32,
            }) && lib.cells_of(index) == cell_offsets(lib.bitmap(index)) by {
                let i = index.type_index as int;
                let j = index.rotate_index as int;
                assert(lib.box_sizes@[i]@[j] == lib.config.box_config.play_boxes@[i].bmp_size_spec(j));
            }
        }
        Ok(lib)
    }

    /// All rotations of a piece type cover the same number of cells.
    pub proof fn lemma_rotation_keeps_cell_count(&self, i: BoxIndex, j: BoxIndex)
        requires
            self.wf(),
            self.valid_index(i),
            self.valid_index(j),
            i.type_index == j.type_index,
        ensures
            self.cells_of(i).len() == self.cells_of(j).len(),
    {
        let t = i.type_index as int;
        assert(cell_offsets(self.config.box_config.bitmap(t, i.rotate_index as int)).len() == cell_offsets(
            self.config.box_config.bitmap(t, 0),
        ).len());
        assert(cell_offsets(self.config.box_config.bitmap(t, j.rotate_index as int)).len() == cell_offsets(
            self.config.box_config.bitmap(t, 0),
        ).len());
    }

    /// The bounding box of a piece type in a rotation.
    pub fn box_size(&self, index: &BoxIndex) -> (r: &ISize)
        requires
            self.wf(),
            self.valid_index(*index),
        ensures
            r.width == bbox_width(self.bitmap(*index)),
            r.height == bbox_height(self.bitmap(*index)),
    {
        proof {
            lemma_bbox_bounds(self.bitmap(*index));
        }
        &self.box_sizes[index.type_index][index.rotate_index]
    }

    /// Where the bounding box of a piece type in a rotation starts in its
    /// frame.
    pub fn box_corner(&self, index: &BoxIndex) -> (r: BoxPos)
        requires
            self.valid_index(*index),
        ensures
            r == bbox_corner(self.bitmap(*index)),
    {
        self.config.box_config.play_boxes[index.type_index].bmp_corner(index.rotate_index)
    }

    /// The cell offsets of a piece type in a rotation.
    pub fn box_pos(&self, index: &BoxIndex) -> (r: &Vec<BoxPos>)
        requires
            self.wf(),
            self.valid_index(*index),
        ensures
            r@ == cell_offsets(self.bitmap(*index)),
    {
        &self.box_positions[index.type_index][index.rotate_index]
    }

    fn init_box_sizes(play_boxes: &Vec<PlayBoxConfig>) -> (r: Vec<Vec<ISize>>)
        ensures
            r@.len() == play_boxes@.len(),
            forall|i: int| 0 <= i < r@.len() ==> (#[trigger] r@[i])@.len() == 4,
            forall|i: int, j: int|
                0 <= i < r@.len() && 0 <= j < 4 ==> (#[trigger] r@[i]@[j]) == play_boxes@[i].bmp_size_spec(j),
    {
        let mut result: Vec<Vec<ISize>> = Vec::new();
        let mut t: usize = 0;
        while t < play_boxes.len()
            invariant
                t <= play_boxes@.len(),
                result@.len() == t,
                forall|i: int| 0 <= i < t ==> (#[trigger] result@[i])@.len() == 4,
                forall|i: int, j: int|
                    0 <= i < t && 0 <= j < 4 ==>
                        (#[trigger] result@[i]@[j]) == play_boxes@[i].bmp_size_spec(j),
            decreases play_boxes@.len() - t,
        {
            let config = &play_boxes[t];
            let mut sizes: Vec<ISize> = Vec::new();
            let mut rotate_index: usize = 0;
            while rotate_index < PLAY_BOX_ROTATE_COUNT
                invariant
                    rotate_index <= 4,
                    sizes@.len() == rotate_index,
                    forall|j: int| 0 <= j < rotate_index ==> #[trigger] sizes@[j] == config.bmp_size_spec(j),
                decreases 4 - rotate_index,
            {
                sizes.push(config.bmp_size(rotate_index));
                rotate_index += 1;
            }
            result.push(sizes);
            t += 1;
        }
        result
    }

    fn init_box_positions(play_boxes: &Vec<PlayBoxConfig>) -> (r: Vec<Vec<Vec<BoxPos>>>)
        ensures
            r@.len() == play_boxes@.len(),
            forall|i: int| 0 <= i < r@.len() ==> (#[trigger] r@[i])@.len() == 4,
            forall|i: int, j: int|
                0 <= i < r@.len() && 0 <= j < 4 ==> (#[trigger] r@[i]@[j])@ == cell_offsets(
                    play_boxes@[i].bitmaps[j],
                ),
    {
        let mut result: Vec<Vec<Vec<BoxPos>>> = Vec::new();
        let mut t: usize = 0;
        while t < play_boxes.len()
            invariant
                t <= play_boxes@.len(),
                result@.len() == t,
                forall|i: int| 0 <= i < t ==> (#[trigger] result@[i])@.len() == 4,
                forall|i: int, j: int|
                    0 <= i < t && 0 <= j < 4 ==> (#[trigger] result@[i]@[j])@ == cell_offsets(
                        play_boxes@[i].bitmaps[j],
                    ),
            decreases play_boxes@.len() - t,
        {
            let config = &play_boxes[t];
            let mut pos: Vec<Vec<BoxPos>> = Vec::new();
            let mut rotate_index: usize = 0;
            while rotate_index < PLAY_BOX_ROTATE_COUNT
                invariant
                    rotate_index <= 4,
                    pos@.len() == rotate_index,
                    forall|j: int|
                        0 <= j < rotate_index ==> (#[trigger] pos@[j])@ == cell_offsets(config.bitmaps[j]),
                decreases 4 - rotate_index,
            {
                pos.push(config.box_pos(rotate_index));
                rotate_index += 1;
            }
            result.push(pos);
            t += 1;
        }
        result
    }
}

} // verus!
