//! The falling piece: its anchor, its type and rotation, and the identities
//! of its fragments.

use vstd::prelude::*;
use rand::rngs::StdRng;
use rand::{Rng, SeedableRng};
use crate::board::{locked, lock_height, target, GamePanel};
use crate::catalog::{
    bit, cell_offsets, frame_index, lemma_frame_cells, BoxIndex, BoxPos, GameLib,
    PLAY_BOX_ROTATE_COUNT,
};

verus! {

/// The cells at `pos` + `offs` are open, and no two of them coincide.
pub open spec fn open_and_distinct(panel: GamePanel, pos: BoxPos, offs: Seq<BoxPos>) -> bool {
    &&& forall|j: int| 0 <= j < offs.len() ==>
        panel.open_cell(#[trigger] target(pos, offs[j]).0, target(pos, offs[j]).1)
    &&& forall|i: int, j: int| 0 <= i < j < offs.len() ==>
        #[trigger] target(pos, offs[i]) != #[trigger] target(pos, offs[j])
}

/// A piece that fits at `pos` covers open and pairwise distinct cells.
pub proof fn lemma_fits_open_and_distinct(panel: GamePanel, bmp: crate::catalog::BitMap, pos: BoxPos)
    requires
        panel.fits(bmp, pos),
    ensures
        open_and_distinct(panel, pos, cell_offsets(bmp)),
{
    lemma_frame_cells(bmp, 16);
    let offs = cell_offsets(bmp);
    assert forall|j: int| 0 <= j < offs.len()
        implies panel.open_cell(#[trigger] target(pos, offs[j]).0, target(pos, offs[j]).1) by {
        let p = offs[j];
        assert(bit(bmp, 3 - p.row, p.col as int));
    }
    assert forall|i: int, j: int| 0 <= i < j < offs.len()
        implies #[trigger] target(pos, offs[i]) != #[trigger] target(pos, offs[j]) by {
        assert(frame_index(offs[i]) < frame_index(offs[j]));
    }
}

/// Locking a piece that fits never overwrites an occupied cell: every cell
/// occupied before keeps its identity.
pub proof fn lemma_lock_keeps_occupied(
    before: GamePanel,
    after: GamePanel,
    bmp: crate::catalog::BitMap,
    pos: BoxPos,
    ids: Seq<u64>,
)
    requires
        before.fits(bmp, pos),
        locked(before, after, pos, cell_offsets(bmp), ids),
    ensures
        forall|r: int, c: int|
            before.inside(r, c) && (#[trigger] before.cell(r, c)) is Some ==>
                after.cell(r, c) == before.cell(r, c),
{
    lemma_fits_open_and_distinct(before, bmp, pos);
    let offs = cell_offsets(bmp);
    assert forall|r: int, c: int| before.inside(r, c) && (#[trigger] before.cell(r, c)) is Some
        implies after.cell(r, c)
        == before.cell(r, c) by {
        assert forall|j: int| 0 <= j < offs.len() implies #[trigger] target(pos, offs[j]) != (r, c) by {
            assert(before.open_cell(target(pos, offs[j]).0, target(pos, offs[j]).1));
        }
    }
}

/// The falling piece, present while `index` is `Some`.
#[derive(Debug)]
pub struct PlayBox {
    pub pos: BoxPos,
    pub index: Option<BoxIndex>,
    pub entities: Vec<u64>,
}

impl Default for PlayBox {
    fn default() -> (r: Self)
        ensures
            r.index is None,
            r.entities@.len() == 0,
            r.pos == (BoxPos { row: 0, col: 0 }),
    {
        PlayBox { pos: BoxPos::new(0, 0), index: None, entities: Vec::new() }
    }
}

impl PlayBox {
    /// A present piece names a catalog entry and holds one identity per
    /// cell; an absent one holds none.
    pub open spec fn wf(&self, game_lib: &GameLib) -> bool {
        match self.index {
            Some(i) => game_lib.valid_index(i) && self.entities@.len() == game_lib.cells_of(i).len(),
            None => self.entities@.len() == 0,
        }
    }

    /// A present piece fits where it stands, its anchor no higher than the
    /// grid's top.
    pub open spec fn placed(&self, panel: &GamePanel, game_lib: &GameLib) -> bool {
        self.index matches Some(i) ==> panel.fits(game_lib.bitmap(i), self.pos) && self.pos.row
            <= panel.rows()
    }

    /// Makes the piece present, unless it already is.
    pub fn init(&mut self, index: BoxIndex, pos: BoxPos, entities: Vec<u64>)
        ensures
            old(self).index is Some ==> *final(self) == *old(self),
            old(self).index is None ==> final(self).index == Some(index) && final(self).pos == pos
                && final(self).entities == entities,
    {
        if self.is_valid() {
            return;
        }
        self.pos = pos;
        self.index = Some(index);
        self.entities = entities;
    }

    /// Moves a present piece; the caller has checked that it fits there.
    pub fn move_to(&mut self, new_pos: BoxPos)
        ensures
            final(self).index == old(self).index,
            final(self).entities == old(self).entities,
            final(self).pos == if old(self).index is Some { new_pos } else { old(self).pos },
    {
        if !self.is_valid() {
            return;
        }
        self.pos = new_pos;
    }

    /// Turns a present piece to its next rotation; the caller has checked
    /// that it fits so.
    pub fn rotate(&mut self)
        requires
            old(self).index matches Some(i) ==> i.rotate_index < PLAY_BOX_ROTATE_COUNT,
        ensures
            final(self).pos == old(self).pos,
            final(self).entities == old(self).entities,
            final(self).index == match old(self).index {
                Some(i) => Some(BoxIndex {
                    type_index: i.type_index,
                    rotate_index: ((i.rotate_index + 1) % 4) as usize,
                }),
                None => None,
            },
    {
        if let Some(index) = &mut self.index {
            index.rotate();
        }
    }

    pub fn pos(&self) -> (r: &BoxPos)
        ensures
            *r == self.pos,
    {
        &self.pos
    }

    pub fn index(&self) -> (r: Option<&BoxIndex>)
        ensures
            r == match self.index {
                Some(i) => Some(&i),
                None => None::<&BoxIndex>,
            },
    {
        self.index.as_ref()
    }

    /// Whether the piece is present.
    pub fn is_valid(&self) -> (r: bool)
        ensures
            r == self.index is Some,
    {
        self.index.is_some()
    }

    /// Takes over the piece held by `source`, at `new_pos`; `source` is left
    /// absent.
    pub fn transfer(&mut self, source: &mut PlayBox, new_pos: BoxPos)
        ensures
            final(self).pos == new_pos,
            final(self).index == old(source).index,
            final(self).entities == old(source).entities,
            final(source).index is None,
            final(source).entities@.len() == 0,
            final(source).pos == old(source).pos,
    {
        self.pos = new_pos;
        self.index = source.index.take();
        self.transfer_entities(source);
    }

    fn transfer_entities(&mut self, source: &mut PlayBox)
        ensures
            final(self).pos == old(self).pos,
            final(self).index == old(self).index,
            final(self).entities == old(source).entities,
            final(source).pos == old(source).pos,
            final(source).index == old(source).index,
            final(source).entities@.len() == 0,
    {
        let mut taken: Vec<u64> = Vec::new();
        core::mem::swap(&mut taken, &mut source.entities);
        self.entities = taken;
    }

    /// Locks a present piece into the board: each fragment's identity is
    /// written into the cell it covers. The piece is absent afterwards.
    pub fn put_in_panel(&mut self, game_lib: &GameLib, game_panel: &mut GamePanel)
        requires
            old(game_panel).wf(),
            game_lib.wf(),
            old(self).wf(game_lib),
            old(self).placed(&*old(game_panel), game_lib),
        ensures
            final(game_panel).wf(),
            final(game_panel).full_rows == old(game_panel).full_rows,
            final(game_panel).full_rows_visible == old(game_panel).full_rows_visible,
            final(self).index is None,
            final(self).entities@.len() == 0,
            final(self).pos == old(self).pos,
            match old(self).index {
                Some(i) => locked(
                    *old(game_panel),
                    *final(game_panel),
                    old(self).pos,
                    game_lib.cells_of(i),
                    old(self).entities@,
                ),
                None => *final(game_panel) == *old(game_panel),
            },
    {
        let index = match &self.index {
            Some(i) => *i,
            None => {
                return;
            },
        };
        let box_pos = game_lib.box_pos(&index);
        let ghost offs = box_pos@;
        let ghost start = *game_panel;
        proof {
            lemma_fits_open_and_distinct(start, game_lib.bitmap(index), self.pos);
            lemma_frame_cells(game_lib.bitmap(index), 16);
        }
        let n = box_pos.len();
        let mut i: usize = 0;
        while i < n
            invariant
                n == offs.len() == self.entities@.len(),
                offs == box_pos@,
                i <= n,
                start.wf(),
                game_panel.wf(),
                open_and_distinct(start, self.pos, offs),
                game_panel.rows() == start.rows(),
                game_panel.cols() == start.cols(),
                game_panel.main_rows == start.main_rows,
                game_panel.full_rows == start.full_rows,
                game_panel.full_rows_visible == start.full_rows_visible,
                self.pos.row <= start.rows(),
                forall|k: int| 0 <= k < n ==> 0 <= (#[trigger] offs[k]).row < 4,
                game_panel.height == lock_height(start.height as int, self.pos, offs, i as int, start.rows()),
                forall|j: int| 0 <= j < i && #[trigger] target(self.pos, offs[j]).0 < start.rows() ==>
                    game_panel.cell(target(self.pos, offs[j]).0, target(self.pos, offs[j]).1) == Some(self.entities@[j]),
                forall|r: int, c: int|
                    game_panel.inside(r, c) && (forall|j: int| 0 <= j < i ==>
                        #[trigger] target(self.pos, offs[j]) != (r, c))
                        ==> #[trigger] game_panel.cell(r, c) == start.cell(r, c),
            decreases n - i,
        {
            let off = box_pos[i];
            proof {
                let t = target(self.pos, offs[i as int]);
                assert(start.open_cell(t.0, t.1));
                assert forall|j: int| 0 <= j < i implies #[trigger] target(self.pos, offs[j]) != t by {}
            }
            let row = self.pos.row + off.row;
            let col = self.pos.col + off.col;
            if (row as usize) < game_panel.row_count() {
                game_panel.put_in_entity(row, col, self.entities[i]);
            }
            i += 1;
        }
        self.index = None;
        self.entities.clear();
    }
}

/// `rand`'s standard generator, held opaquely by the index generator.
#[verifier::external_type_specification]
#[verifier::external_body]
pub struct ExStdRng(StdRng);

/// Relies on `rand::random::<u64>`: a value drawn from the thread-local
/// generator, which the operating system seeds. Any value may come back.
#[verifier::external_body]
fn entropy_seed() -> u64 {
    rand::random::<u64>()
}

/// Relies on `SeedableRng::seed_from_u64` for `StdRng`: a generator whose
/// stream is fixed by the seed.
#[verifier::external_body]
fn rng_from_seed(seed: u64) -> StdRng {
    StdRng::seed_from_u64(seed)
}

/// Relies on `Rng::random_range` over `0..n`: a value below `n` (the call
/// panics on an empty range, which `n > 0` rules out).
#[verifier::external_body]
fn draw_below(rng: &mut StdRng, n: usize) -> (r: usize)
    requires
        n > 0,
    ensures
        r < n,
{
    rng.random_range(0..n)
}

/// Draws piece types and rotations uniformly from a seeded generator; the
/// seed is kept so that a game can be replayed.
#[derive(Debug)]
pub struct IndexGen {
    pub type_count: usize,
    pub rotate_count: usize,
    pub seed: u64,
    pub rng: StdRng,
}

impl IndexGen {
    /// A generator seeded from the operating system's entropy.
    pub fn new(type_count: usize, rotate_count: usize) -> (r: Self)
        ensures
            r.type_count == type_count,
            r.rotate_count == rotate_count,
    {
        Self::with_seed(type_count, rotate_count, entropy_seed())
    }

    /// A generator with a chosen seed.
    pub fn with_seed(type_count: usize, rotate_count: usize, seed: u64) -> (r: Self)
        ensures
            r.type_count == type_count,
            r.rotate_count == rotate_count,
            r.seed == seed,
    {
        IndexGen { type_count, rotate_count, seed, rng: rng_from_seed(seed) }
    }

    pub fn seed(&self) -> (r: u64)
        ensures
            r == self.seed,
    {
        self.seed
    }

    /// A random piece type and rotation.
    pub fn rand_box(&mut self) -> (r: BoxIndex)
        requires
            old(self).type_count > 0,
            old(self).rotate_count > 0,
        ensures
            r.type_index < old(self).type_count,
            r.rotate_index < old(self).rotate_count,
            final(self).type_count == old(self).type_count,
            final(self).rotate_count == old(self).rotate_count,
            final(self).seed == old(self).seed,
    {
        let type_index = draw_below(&mut self.rng, self.type_count);
        let rotate_index = draw_below(&mut self.rng, self.rotate_count);
        BoxIndex { type_index, rotate_index }
    }
}

} // verus!
