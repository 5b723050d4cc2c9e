//! The game session: every piece of state the update loop owns, and the
//! phase machine that moves it along one tick at a time.

use vstd::prelude::*;
use crate::board::{locked, rows_removed, target, GamePanel};
use crate::catalog::{
    bit, lemma_bitmap_has_cell, lemma_frame_cells, BoxIndex, BoxPos, GameLib, PLAY_BOX_ROTATE_COUNT,
};
use crate::play_box::{IndexGen, PlayBox};
use crate::timer::{CountDownTimer, RepeatTimer};

verus! {

/// The phases of a game.
#[derive(Debug, Clone, Copy, PartialEq, Eq, Structural, Hash, Default)]
pub enum AppState {
    #[default]
    Loading,
    InitBox,
    Playing,
    FastDown,
    Flashing,
    Stopped,
}

/// The player's commands: move left, move right, rotate, drop fast.
#[derive(Debug, Clone, Copy, PartialEq, Eq, Structural)]
pub enum Key {
    ArrowLeft,
    ArrowRight,
    ArrowUp,
    ArrowDown,
}

/// The same piece type in its next rotation.
pub open spec fn rotated(i: BoxIndex) -> BoxIndex {
    BoxIndex { type_index: i.type_index, rotate_index: ((i.rotate_index + 1) % 4) as usize }
}

/// `p` moved by `dr` rows and `dc` columns.
pub open spec fn shifted(p: BoxPos, dr: int, dc: int) -> BoxPos {
    BoxPos { row: (p.row + dr) as i32, col: (p.col + dc) as i32 }
}

/// Hands out `n` fresh fragment identities, counting up from `*next_entity`.
fn new_entities(next_entity: &mut u64, n: usize) -> (r: Vec<u64>)
    ensures
        r@.len() == n,
        forall|i: int| 0 <= i < n ==> #[trigger] r@[i] == (*old(next_entity) + i) % 0x1_0000_0000_0000_0000,
        *final(next_entity) == (*old(next_entity) + n) % 0x1_0000_0000_0000_0000,
{
    let mut r: Vec<u64> = Vec::new();
    let mut i: usize = 0;
    while i < n
        invariant
            i <= n,
            r@.len() == i,
            forall|j: int| 0 <= j < i ==>
                #[trigger] r@[j] == (*old(next_entity) + j) % 0x1_0000_0000_0000_0000,
            *next_entity == (*old(next_entity) + i) % 0x1_0000_0000_0000_0000,
        decreases n - i,
    {
        r.push(*next_entity);
        proof {
            vstd::arithmetic::div_mod::lemma_add_mod_noop(
                *old(next_entity) as int + i,
                1,
                0x1_0000_0000_0000_0000,
            );
            vstd::arithmetic::div_mod::lemma_small_mod(1, 0x1_0000_0000_0000_0000);
        }
        *next_entity = next_entity.wrapping_add(1);
        i += 1;
    }
    r
}

/// The next piece, shown beside the board before it enters.
#[derive(Debug)]
pub struct Preview {
    pub play_box: PlayBox,
}

impl Preview {
    pub fn new() -> (r: Self)
        ensures
            r.play_box.index is None,
            r.play_box.entities@.len() == 0,
    {
        Preview { play_box: PlayBox::default() }
    }

    /// Draws the next piece if none is waiting.
    pub fn init_box(&mut self, index_gen: &mut IndexGen, game_lib: &GameLib, next_entity: &mut u64)
        requires
            game_lib.wf(),
            old(self).play_box.wf(game_lib),
            old(index_gen).type_count == game_lib.type_count(),
            old(index_gen).rotate_count == PLAY_BOX_ROTATE_COUNT,
        ensures
            final(self).play_box.wf(game_lib),
            final(self).play_box.index is Some,
            old(self).play_box.index is Some ==> *final(self) == *old(self),
            final(index_gen).type_count == old(index_gen).type_count,
            final(index_gen).rotate_count == old(index_gen).rotate_count,
            final(index_gen).seed == old(index_gen).seed,
    {
        if self.play_box.is_valid() {
            return;
        }
        let index = index_gen.rand_box();
        let n = game_lib.box_pos(&index).len();
        let entities = new_entities(next_entity, n);
        self.play_box.init(index, BoxPos::new(0, 0), entities);
    }
}

/// A placed piece has a set cell within the columns and not below row 0,
/// so its anchor lies at most three cells outside; it is never above the
/// grid's top.
proof fn lemma_placed_bounds(panel: GamePanel, game_lib: GameLib, play_box: PlayBox)
    requires
        panel.wf(),
        game_lib.wf(),
        play_box.wf(&game_lib),
        play_box.placed(&panel, &game_lib),
        play_box.index is Some,
    ensures
        -3 <= play_box.pos.row <= panel.rows(),
        -3 <= play_box.pos.col < panel.cols(),
{
    let i = play_box.index.unwrap();
    let bmp = game_lib.bitmap(i);
    assert(bmp == game_lib.config.box_config.bitmap(i.type_index as int, i.rotate_index as int));
    lemma_bitmap_has_cell(bmp);
    let (r, c) = choose|r: int, c: int| 0 <= r < 4 && 0 <= c < 4 && #[trigger] bit(bmp, r, c);
    assert(panel.open_cell(GamePanel::target_row(play_box.pos, r), play_box.pos.col + c));
}

/// Moves the present piece one column left when it fits there.
pub fn try_move_left(play_box: &mut PlayBox, game_lib: &GameLib, game_panel: &GamePanel)
    requires
        game_panel.wf(),
        game_lib.wf(),
        old(play_box).wf(game_lib),
        old(play_box).placed(game_panel, game_lib),
    ensures
        final(play_box).wf(game_lib),
        final(play_box).placed(game_panel, game_lib),
        final(play_box).index == old(play_box).index,
        final(play_box).entities == old(play_box).entities,
        final(play_box).pos == match old(play_box).index {
            Some(i) => if game_panel.fits(game_lib.bitmap(i), shifted(old(play_box).pos, 0, -1)) {
                shifted(old(play_box).pos, 0, -1)
            } else {
                old(play_box).pos
            },
            None => old(play_box).pos,
        },
{
    if !play_box.is_valid() {
        return;
    }
    let index = *play_box.index().unwrap();
    proof {
        lemma_placed_bounds(*game_panel, *game_lib, *play_box);
    }
    let new_pos = BoxPos::new(play_box.pos().row, play_box.pos().col - 1);
    if game_panel.can_move_to(&new_pos, &index, game_lib) {
        play_box.move_to(new_pos);
    }
}

/// Moves the present piece one column right when it fits there.
pub fn try_move_right(play_box: &mut PlayBox, game_lib: &GameLib, game_panel: &GamePanel)
    requires
        game_panel.wf(),
        game_lib.wf(),
        old(play_box).wf(game_lib),
        old(play_box).placed(game_panel, game_lib),
    ensures
        final(play_box).wf(game_lib),
        final(play_box).placed(game_panel, game_lib),
        final(play_box).index == old(play_box).index,
        final(play_box).entities == old(play_box).entities,
        final(play_box).pos == match old(play_box).index {
            Some(i) => if game_panel.fits(game_lib.bitmap(i), shifted(old(play_box).pos, 0, 1)) {
                shifted(old(play_box).pos, 0, 1)
            } else {
                old(play_box).pos
            },
            None => old(play_box).pos,
        },
{
    if !play_box.is_valid() {
        return;
    }
    let index = *play_box.index().unwrap();
    proof {
        lemma_placed_bounds(*game_panel, *game_lib, *play_box);
    }
    let new_pos = BoxPos::new(play_box.pos().row, play_box.pos().col + 1);
    if game_panel.can_move_to(&new_pos, &index, game_lib) {
        play_box.move_to(new_pos);
    }
}

/// Turns the present piece to its next rotation when that fits where it
/// stands; no other position is tried.
pub fn try_rotate(play_box: &mut PlayBox, game_lib: &GameLib, game_panel: &GamePanel)
    requires
        game_panel.wf(),
        game_lib.wf(),
        old(play_box).wf(game_lib),
        old(play_box).placed(game_panel, game_lib),
    ensures
        final(play_box).wf(game_lib),
        final(play_box).placed(game_panel, game_lib),
        final(play_box).pos == old(play_box).pos,
        final(play_box).entities == old(play_box).entities,
        final(play_box).index == match old(play_box).index {
            Some(i) => if game_panel.fits(game_lib.bitmap(rotated(i)), old(play_box).pos) {
                Some(rotated(i))
            } else {
                Some(i)
            },
            None => None,
        },
{
    if !play_box.is_valid() {
        return;
    }
    let mut new_index = *play_box.index().unwrap();
    new_index.rotate();
    if game_panel.can_move_to(play_box.pos(), &new_index, game_lib) {
        play_box.rotate();
        proof {
            let i = old(play_box).index.unwrap();
            assert(game_lib.cells_of(rotated(i)).len() == game_lib.cells_of(i).len()) by {
                game_lib.lemma_rotation_keeps_cell_count(i, rotated(i));
            }
        }
    }
}

/// Starts a fast drop when the present piece can move down a row.
pub fn start_fast_down(
    next_state: &mut AppState,
    play_box: &PlayBox,
    game_panel: &GamePanel,
    game_lib: &GameLib,
    fast_down_timer: &mut CountDownTimer,
)
    requires
        game_panel.wf(),
        game_lib.wf(),
        play_box.wf(game_lib),
        play_box.placed(game_panel, game_lib),
        old(fast_down_timer).wf(),
    ensures
        final(fast_down_timer).wf(),
        ({
            let go = play_box.index matches Some(i) && game_panel.fits(game_lib.bitmap(i), shifted(play_box.pos, -1, 0));
            &&& go ==>
                *final(next_state) == AppState::FastDown && *final(fast_down_timer) == (CountDownTimer {
                steps: 0,
                elapsed: 0,
                running: true,
                ..*old(fast_down_timer)
            })
            &&& !go ==>
                *final(next_state) == *old(next_state) && *final(fast_down_timer) == *old(fast_down_timer)
        }),
{
    if !play_box.is_valid() {
        return;
    }
    let index = *play_box.index().unwrap();
    proof {
        lemma_placed_bounds(*game_panel, *game_lib, *play_box);
    }
    let new_pos = BoxPos::new(play_box.pos().row - 1, play_box.pos().col);
    if game_panel.can_move_to(&new_pos, &index, game_lib) {
        *next_state = AppState::FastDown;
        fast_down_timer.start();
    }
}

/// Everything a running game owns.
#[derive(Debug)]
pub struct Game {
    pub state: AppState,
    pub game_lib: GameLib,
    pub game_panel: GamePanel,
    pub play_box: PlayBox,
    pub preview: Preview,
    pub index_gen: IndexGen,
    pub drop_down_timer: RepeatTimer,
    pub fast_down_timer: CountDownTimer,
    pub flash_full_line_timer: CountDownTimer,
    pub next_entity: u64,
}

impl Game {
    pub open spec fn wf(&self) -> bool {
        &&& self.game_lib.wf()
        &&& self.game_panel.wf()
        &&& self.play_box.wf(&self.game_lib)
        &&& self.play_box.placed(&self.game_panel, &self.game_lib)
        &&& self.preview.play_box.wf(&self.game_lib)
        &&& self.index_gen.type_count == self.game_lib.type_count()
        &&& self.index_gen.rotate_count == PLAY_BOX_ROTATE_COUNT
        &&& self.drop_down_timer.wf()
        &&& self.fast_down_timer.wf()
        &&& self.flash_full_line_timer.wf()
        &&& self.state == AppState::Flashing ==> self.play_box.index is None
        &&& self.state == AppState::InitBox ==> self.play_box.index is None
    }

    /// `after` is `before` with its piece locked into the board (the cells
    /// that stick out above the grid are dropped): the full rows among those
    /// the piece's frame covers are recorded and the drop timer is paused.
    /// A piece that stuck out above the grid stops the game; otherwise the
    /// game goes on to the blink of the full rows, or else stops when the
    /// stack reached the visible top, or else waits for the next piece.
    pub open spec fn lock_step(before: Game, after: Game) -> bool {
        let i = before.play_box.index->Some_0;
        let p = before.play_box.pos;
        &&& after.play_box.index is None
        &&& after.play_box.entities@.len() == 0
        &&& after.play_box.pos == before.play_box.pos
        &&& locked(before.game_panel, after.game_panel, p, before.game_lib.cells_of(i), before.play_box.entities@)
        &&& after.game_panel.full_rows@ == after.game_panel.full_rows_in(
            after.game_panel.lock_rows_start(p),
            after.game_panel.lock_rows_end(p),
        )
        &&& after.game_lib == before.game_lib
        &&& after.preview == before.preview
        &&& after.index_gen == before.index_gen
        &&& after.next_entity == before.next_entity
        &&& after.fast_down_timer == before.fast_down_timer
        &&& after.drop_down_timer == (RepeatTimer { paused: true, ..before.drop_down_timer })
        &&& if before.game_panel.overflows(p, before.game_lib.cells_of(i)) {
            &&& after.state == AppState::Stopped
            &&& after.game_panel.full_rows_visible == before.game_panel.full_rows_visible
            &&& after.flash_full_line_timer == before.flash_full_line_timer
        } else if after.game_panel.full_rows@.len() > 0 {
            &&& after.state == AppState::Flashing
            &&& after.game_panel.full_rows_visible
            &&& after.flash_full_line_timer == (CountDownTimer {
                steps: 0,
                elapsed: 0,
                running: true,
                ..before.flash_full_line_timer
            })
        } else {
            &&& after.state == if after.game_panel.height >= after.game_panel.main_rows {
                AppState::Stopped
            } else {
                AppState::InitBox
            }
            &&& after.game_panel.full_rows_visible == before.game_panel.full_rows_visible
            &&& after.flash_full_line_timer == before.flash_full_line_timer
        }
    }

    /// The game after `reset_play_box`. Outside InitBox and Playing, or
    /// with a piece present, nothing changes. Otherwise the waiting piece
    /// (the preview's, or a fresh draw when none waits) enters at its spawn
    /// position, a new piece is drawn to wait and the drop timer resumes;
    /// when the piece fits at no spawn row the game stops and all else is
    /// kept.
    pub open spec fn spawn_step(g: Game, h: Game) -> bool {
        if !(g.state == AppState::InitBox || g.state == AppState::Playing) || g.play_box.index is Some {
            h == g
        } else {
            let waiting = if h.state == AppState::Stopped {
                h.preview.play_box
            } else {
                h.play_box
            };
            let bmp = g.game_lib.bitmap(waiting.index->Some_0);
            &&& waiting.index is Some
            &&& g.preview.play_box.index is Some ==> waiting.index == g.preview.play_box.index
                && waiting.entities == g.preview.play_box.entities
            &&& h.preview.play_box.index is Some
            &&& h.index_gen.seed == g.index_gen.seed
            &&& if g.game_panel.spawn_fails(bmp) {
                h == (Game {
                    state: AppState::Stopped,
                    preview: h.preview,
                    index_gen: h.index_gen,
                    next_entity: h.next_entity,
                    ..g
                })
            } else {
                &&& g.game_panel.spawn_pos(bmp, h.play_box.pos)
                &&& h == (Game {
                    state: AppState::Playing,
                    play_box: h.play_box,
                    preview: h.preview,
                    index_gen: h.index_gen,
                    next_entity: h.next_entity,
                    drop_down_timer: (RepeatTimer { paused: false, ..g.drop_down_timer }),
                    ..g
                })
            }
        }
    }

    /// The game after `process_input(key)`. Outside Playing, or without a
    /// piece, nothing changes. A move or rotation happens only when the
    /// piece fits afterwards; a fast drop starts only when the piece can
    /// move down.
    pub open spec fn input_step(g: Game, key: Key, h: Game) -> bool {
        if g.state != AppState::Playing || g.play_box.index is None {
            h == g
        } else {
            let i = g.play_box.index->Some_0;
            let pb = g.play_box;
            match key {
                Key::ArrowLeft => h == g.with_play_box(
                    (PlayBox {
                        pos: if g.game_panel.fits(g.game_lib.bitmap(i), shifted(pb.pos, 0, -1)) {
                            shifted(pb.pos, 0, -1)
                        } else {
                            pb.pos
                        },
                        ..pb
                    }),
                ),
                Key::ArrowRight => h == g.with_play_box(
                    (PlayBox {
                        pos: if g.game_panel.fits(g.game_lib.bitmap(i), shifted(pb.pos, 0, 1)) {
                            shifted(pb.pos, 0, 1)
                        } else {
                            pb.pos
                        },
                        ..pb
                    }),
                ),
                Key::ArrowUp => h == g.with_play_box(
                    (PlayBox {
                        index: if g.game_panel.fits(g.game_lib.bitmap(rotated(i)), pb.pos) {
                            Some(rotated(i))
                        } else {
                            Some(i)
                        },
                        ..pb
                    }),
                ),
                Key::ArrowDown => if g.game_panel.fits(g.game_lib.bitmap(i), shifted(pb.pos, -1, 0)) {
                    h == (Game {
                        state: AppState::FastDown,
                        fast_down_timer: g.fast_down_timer.started(),
                        ..g
                    })
                } else {
                    h == g
                },
            }
        }
    }

    /// The game after `drop_down_play_box(delta)`. Outside Playing, or
    /// without a piece, nothing changes. The drop timer ticks; when its
    /// period came round the piece moves down a row, or is locked when it
    /// cannot.
    pub open spec fn drop_step(g: Game, delta: u64, h: Game) -> bool {
        if g.state != AppState::Playing || g.play_box.index is None {
            h == g
        } else {
            let t = g.drop_down_timer.ticked(delta);
            let ticked = (Game { drop_down_timer: t, ..g });
            let below = shifted(g.play_box.pos, -1, 0);
            if !t.finished {
                h == ticked
            } else if g.game_panel.fits(g.game_lib.bitmap(g.play_box.index->Some_0), below) {
                h == ticked.with_play_box((PlayBox { pos: below, ..g.play_box }))
            } else {
                Self::lock_step(ticked, h)
            }
        }
    }

    /// The game after `fast_move_down(delta)`. Outside FastDown nothing
    /// changes. The fast-drop timer updates; when it fires the piece moves
    /// down a row, or, when it cannot, the timer stops and the piece is
    /// locked. Once the timer has fired all its steps it stops and play
    /// goes on at the normal pace.
    pub open spec fn fast_step(g: Game, delta: u64, h: Game) -> bool {
        if g.state != AppState::FastDown {
            h == g
        } else if g.play_box.index is None {
            h == (Game { state: AppState::Playing, fast_down_timer: g.fast_down_timer.stopped(), ..g })
        } else {
            let below = shifted(g.play_box.pos, -1, 0);
            let t = g.fast_down_timer.updated(delta);
            let fired = g.fast_down_timer.fires(delta);
            if fired && !g.game_panel.fits(g.game_lib.bitmap(g.play_box.index->Some_0), below) {
                Self::lock_step((Game { fast_down_timer: t.stopped(), ..g }), h)
            } else {
                let moved = if fired {
                    (PlayBox { pos: below, ..g.play_box })
                } else {
                    g.play_box
                };
                if t.finished() {
                    h == (Game {
                        state: AppState::Playing,
                        play_box: moved,
                        fast_down_timer: t.stopped(),
                        ..g
                    })
                } else {
                    h == (Game { play_box: moved, fast_down_timer: t, ..g })
                }
            }
        }
    }

    /// The game after `flash_full_rows(delta)`. Outside Flashing nothing
    /// changes. The flash timer updates and each firing flips the full
    /// rows' visibility; once it has fired all its steps the full rows are
    /// removed, the timer stops, and the game waits for the next piece, or
    /// stops when the stack still reaches the visible top.
    pub open spec fn flash_step(g: Game, delta: u64, h: Game) -> bool {
        if g.state != AppState::Flashing {
            h == g
        } else {
            let t = g.flash_full_line_timer.updated(delta);
            let visible = if g.flash_full_line_timer.fires(delta) {
                !g.game_panel.full_rows_visible
            } else {
                g.game_panel.full_rows_visible
            };
            let shown = (GamePanel { full_rows_visible: visible, ..g.game_panel });
            if t.finished() {
                &&& rows_removed(shown, (GamePanel { full_rows_visible: visible, ..h.game_panel }))
                &&& h.game_panel.full_rows_visible
                &&& h == (Game {
                    state: if h.game_panel.height >= h.game_panel.main_rows {
                        AppState::Stopped
                    } else {
                        AppState::InitBox
                    },
                    game_panel: h.game_panel,
                    flash_full_line_timer: t.stopped(),
                    ..g
                })
            } else {
                h == (Game { game_panel: shown, flash_full_line_timer: t, ..g })
            }
        }
    }

    /// The same game with another falling piece.
    pub open spec fn with_play_box(self, play_box: PlayBox) -> Game {
        Game { play_box, ..self }
    }

    /// A new game on an empty board, waiting for its first piece.
    pub fn setup_game(game_lib: GameLib, index_gen: IndexGen) -> (r: Game)
        requires
            game_lib.wf(),
            index_gen.type_count == game_lib.type_count(),
            index_gen.rotate_count == PLAY_BOX_ROTATE_COUNT,
        ensures
            r.wf(),
            r.state == AppState::InitBox,
            r.game_lib == game_lib,
            r.play_box.index is None,
            r.preview.play_box.index is None,
            r.game_panel.rows() == game_lib.config.game_panel_config.rows(),
            r.game_panel.cols() == game_lib.config.game_panel_config.cols(),
            r.game_panel.main_rows == game_lib.config.game_panel_config.main_rows,
            r.game_panel.height == 0,
            r.game_panel.full_rows@.len() == 0,
            forall|row: int, col: int| r.game_panel.inside(row, col) ==> r.game_panel.cell(row, col) is None,
            r.drop_down_timer == RepeatTimer::new_spec(game_lib.config.drop_down_interval),
            r.fast_down_timer == CountDownTimer::new_spec(
                game_lib.config.fast_down_interval,
                game_lib.config.fast_down_max_steps,
            ),
            r.flash_full_line_timer == CountDownTimer::new_spec(
                game_lib.config.flash_full_line_interval,
                game_lib.config.flash_full_line_max_count,
            ),
    {
        let game_panel = GamePanel::new(&game_lib.config.game_panel_config);
        let drop_down_timer = RepeatTimer::new(game_lib.config.drop_down_interval);
        let fast_down_timer = CountDownTimer::new(
            game_lib.config.fast_down_interval,
            game_lib.config.fast_down_max_steps,
        );
        let flash_full_line_timer = CountDownTimer::new(
            game_lib.config.flash_full_line_interval,
            game_lib.config.flash_full_line_max_count,
        );
        Game {
            state: AppState::InitBox,
            game_lib,
            game_panel,
            play_box: PlayBox::default(),
            preview: Preview::new(),
            index_gen,
            drop_down_timer,
            fast_down_timer,
            flash_full_line_timer,
            next_entity: 0,
        }
    }

    /// Brings the next piece in: the waiting preview piece (one is drawn
    /// first if none waits) enters at its spawn position, a new preview
    /// piece is drawn and play resumes. When the piece fits at no spawn
    /// row the game stops.
    pub fn reset_play_box(&mut self)
        requires
            old(self).wf(),
        ensures
            final(self).wf(),
            Self::spawn_step(*old(self), *final(self)),
    {
        if !(self.state == AppState::InitBox || self.state == AppState::Playing) || self.play_box.is_valid() {
            return;
        }
        self.preview.init_box(&mut self.index_gen, &self.game_lib, &mut self.next_entity);
        let index = *self.preview.play_box.index().unwrap();
        proof {
            crate::catalog::lemma_bbox_bounds(self.game_lib.bitmap(index));
        }
        match self.game_panel.init_pos(&index, &self.game_lib) {
            Some(new_pos) => {
                self.play_box.transfer(&mut self.preview.play_box, new_pos);
                self.preview.init_box(&mut self.index_gen, &self.game_lib, &mut self.next_entity);
                self.drop_down_timer.unpause();
                self.state = AppState::Playing;
            },
            None => {
                self.state = AppState::Stopped;
            },
        }
    }

    /// Locks the present piece and picks the next phase.
    fn lock_play_box(&mut self)
        requires
            old(self).wf(),
            old(self).play_box.index is Some,
        ensures
            final(self).wf(),
            Self::lock_step(*old(self), *final(self)),
    {
        let index = *self.play_box.index().unwrap();
        let pos = *self.play_box.pos();
        let over = self.game_panel.above_top(&pos, &index, &self.game_lib);
        self.game_panel.put_down_play_box(&mut self.play_box, &self.game_lib);
        self.drop_down_timer.pause();
        if over {
            self.state = AppState::Stopped;
        } else if self.game_panel.has_full_lines() {
            self.state = AppState::Flashing;
            let ghost mid = self.game_panel;
            self.game_panel.full_rows_visible = true;
            proof {
                let i = old(self).play_box.index->Some_0;
                let offs = self.game_lib.cells_of(i);
                let p = old(self).play_box.pos;
                assert(forall|r: int, c: int| #[trigger] self.game_panel.cell(r, c) == mid.cell(r, c));
                assert(forall|j: int| 0 <= j < offs.len() ==>
                    self.game_panel.cell(#[trigger] target(p, offs[j]).0, target(p, offs[j]).1) == mid.cell(target(p, offs[j]).0, target(p, offs[j]).1));
            }
            self.flash_full_line_timer.start();
        } else if self.game_panel.reach_top() {
            self.state = AppState::Stopped;
        } else {
            self.state = AppState::InitBox;
        }
    }

    /// Advances the drop timer while playing; when its period comes round
    /// the piece moves down a row, or is locked when it cannot.
    pub fn drop_down_play_box(&mut self, delta: u64)
        requires
            old(self).wf(),
        ensures
            final(self).wf(),
            Self::drop_step(*old(self), delta, *final(self)),
    {
        if self.state != AppState::Playing || !self.play_box.is_valid() {
            return;
        }
        self.drop_down_timer.tick(delta);
        if self.drop_down_timer.is_finished() {
            let index = *self.play_box.index().unwrap();
            proof {
                lemma_placed_bounds(self.game_panel, self.game_lib, self.play_box);
            }
            let new_pos = BoxPos::new(self.play_box.pos().row - 1, self.play_box.pos().col);
            if self.game_panel.can_move_to(&new_pos, &index, &self.game_lib) {
                self.play_box.move_to(new_pos);
            } else {
                self.lock_play_box();
            }
        }
    }

    /// One step of a fast drop: when the fast-drop timer fires, the piece
    /// moves down a row, or is locked when it cannot; once the timer has
    /// fired all its steps, play goes on at the normal pace.
    pub fn fast_move_down(&mut self, delta: u64)
        requires
            old(self).wf(),
        ensures
            final(self).wf(),
            Self::fast_step(*old(self), delta, *final(self)),
    {
        if self.state != AppState::FastDown {
            return;
        }
        if !self.play_box.is_valid() {
            self.fast_down_timer.stop();
            self.state = AppState::Playing;
            return;
        }
        let mut stop = false;
        if self.fast_down_timer.update(delta) {
            let index = *self.play_box.index().unwrap();
            proof {
                lemma_placed_bounds(self.game_panel, self.game_lib, self.play_box);
            }
            let new_pos = BoxPos::new(self.play_box.pos().row - 1, self.play_box.pos().col);
            if self.game_panel.can_move_to(&new_pos, &index, &self.game_lib) {
                self.play_box.move_to(new_pos);
            } else {
                stop = true;
            }
        }
        if stop {
            self.fast_down_timer.stop();
            self.lock_play_box();
        } else if self.fast_down_timer.is_finished() {
            self.state = AppState::Playing;
            self.fast_down_timer.stop();
        }
    }

    /// Blinks the full rows: each time the flash timer fires their
    /// visibility flips; once it has fired all its steps they are removed,
    /// and the game waits for the next piece, or stops when the stack
    /// still reaches the visible top.
    pub fn flash_full_rows(&mut self, delta: u64)
        requires
            old(self).wf(),
        ensures
            final(self).wf(),
            Self::flash_step(*old(self), delta, *final(self)),
    {
        if self.state != AppState::Flashing {
            return;
        }
        if self.flash_full_line_timer.update(delta) {
            self.game_panel.toggle_full_rows_visibility();
        }
        if self.flash_full_line_timer.is_finished() {
            self.game_panel.remove_full_rows();
            self.flash_full_line_timer.stop();
            self.game_panel.full_rows_visible = true;
            if self.game_panel.reach_top() {
                self.state = AppState::Stopped;
            } else {
                self.state = AppState::InitBox;
            }
        }
    }

    /// One tick of the game: `delta` microseconds have passed and `key`
    /// is the command given in this tick, if any. The phase decides what
    /// runs; a stopped game no longer changes.
    pub fn update(&mut self, delta: u64, key: Option<Key>)
        requires
            old(self).wf(),
        ensures
            final(self).wf(),
            match old(self).state {
                AppState::InitBox => Self::spawn_step(*old(self), *final(self)),
                AppState::Playing => if old(self).play_box.index is None {
                    Self::spawn_step(*old(self), *final(self))
                } else {
                    match key {
                        Some(k) => exists|mid: Game|
                            #[trigger] Self::input_step(*old(self), k, mid) && Self::drop_step(
                                mid,
                                delta,
                                *final(self),
                            ),
                        None => Self::drop_step(*old(self), delta, *final(self)),
                    }
                },
                AppState::FastDown => Self::fast_step(*old(self), delta, *final(self)),
                AppState::Flashing => Self::flash_step(*old(self), delta, *final(self)),
                _ => *final(self) == *old(self),
            },
    {
        match self.state {
            AppState::InitBox => self.reset_play_box(),
            AppState::Playing => {
                if !self.play_box.is_valid() {
                    self.reset_play_box();
                } else {
                    if let Some(k) = key {
                        self.process_input(k);
                    }
                    self.drop_down_play_box(delta);
                }
            },
            AppState::FastDown => self.fast_move_down(delta),
            AppState::Flashing => self.flash_full_rows(delta),
            AppState::Loading | AppState::Stopped => {},
        }
    }

    /// The board cells the falling piece covers, in the order of its cell
    /// offsets; none without a piece.
    pub fn play_box_cells(&self) -> (r: Vec<BoxPos>)
        requires
            self.wf(),
        ensures
            match self.play_box.index {
                Some(i) => r@.len() == self.game_lib.cells_of(i).len() && forall|j: int|
                    0 <= j < r@.len() ==> #[trigger] r@[j] == shifted(
                        self.play_box.pos,
                        self.game_lib.cells_of(i)[j].row as int,
                        self.game_lib.cells_of(i)[j].col as int,
                    ),
                None => r@.len() == 0,
            },
    {
        let mut r: Vec<BoxPos> = Vec::new();
        let index = match self.play_box.index() {
            Some(i) => *i,
            None => {
                return r;
            },
        };
        let offs = self.game_lib.box_pos(&index);
        let pos = *self.play_box.pos();
        proof {
            lemma_placed_bounds(self.game_panel, self.game_lib, self.play_box);
            lemma_frame_cells(self.game_lib.bitmap(index), 16);
        }
        let mut j: usize = 0;
        while j < offs.len()
            invariant
                self.wf(),
                offs@ == self.game_lib.cells_of(index),
                self.play_box.index == Some(index),
                pos == self.play_box.pos,
                -3 <= pos.row <= self.game_panel.rows(),
                -3 <= pos.col < self.game_panel.cols(),
                forall|k: int| 0 <= k < offs@.len() ==>
                    0 <= (#[trigger] offs@[k]).row < 4 && 0 <= offs@[k].col < 4,
                j <= offs@.len(),
                r@.len() == j,
                forall|k: int|
                    0 <= k < j ==> #[trigger] r@[k] == shifted(pos, offs@[k].row as int, offs@[k].col as int),
            decreases offs@.len() - j,
        {
            let off = offs[j];
            r.push(BoxPos::new(pos.row + off.row, pos.col + off.col));
            j += 1;
        }
        r
    }

    /// The colour of the falling piece's type.
    pub fn play_box_color(&self) -> (r: Option<[u8; 4]>)
        requires
            self.wf(),
        ensures
            r == match self.play_box.index {
                Some(i) => Some(self.game_lib.config.box_config.play_boxes@[i.type_index as int].color),
                None => None::<[u8; 4]>,
            },
    {
        match self.play_box.index() {
            Some(i) => Some(self.game_lib.config.box_config.play_boxes[i.type_index].color()),
            None => None,
        }
    }

    /// Applies one command while playing: a move or rotation happens only
    /// when the piece fits afterwards, and a fast drop starts only when
    /// the piece can move down. In any other phase, or without a piece,
    /// nothing happens.
    pub fn process_input(&mut self, key: Key)
        requires
            old(self).wf(),
        ensures
            final(self).wf(),
            Self::input_step(*old(self), key, *final(self)),
    {
        if self.state != AppState::Playing || !self.play_box.is_valid() {
            return;
        }
        match key {
            Key::ArrowLeft => try_move_left(&mut self.play_box, &self.game_lib, &self.game_panel),
            Key::ArrowRight => try_move_right(&mut self.play_box, &self.game_lib, &self.game_panel),
            Key::ArrowUp => try_rotate(&mut self.play_box, &self.game_lib, &self.game_panel),
            Key::ArrowDown => start_fast_down(
                &mut self.state,
                &self.play_box,
                &self.game_panel,
                &self.game_lib,
                &mut self.fast_down_timer,
            ),
        }
    }
}

/// When no piece that could enter next fits at any spawn row, bringing in
/// the next piece stops the game and leaves the board, the falling piece
/// and the drop timer as they were.
pub proof fn lemma_spawn_failure_stops(g: Game, h: Game)
    requires
        g.wf(),
        h.wf(),
        g.state == AppState::InitBox || g.state == AppState::Playing,
        g.play_box.index is None,
        Game::spawn_step(g, h),
        forall|i: BoxIndex|
            g.game_lib.valid_index(i) && (g.preview.play_box.index matches Some(j) ==> i == j) ==>
                #[trigger] g.game_panel.spawn_fails(g.game_lib.bitmap(i)),
    ensures
        h.state == AppState::Stopped,
        h.play_box.index is None,
        h.game_panel == g.game_panel,
        h.drop_down_timer == g.drop_down_timer,
{
    let waiting = if h.state == AppState::Stopped {
        h.preview.play_box
    } else {
        h.play_box
    };
    let w = waiting.index->Some_0;
    assert(h.game_lib == g.game_lib);
    assert(g.game_lib.valid_index(w));
    assert(g.game_panel.spawn_fails(g.game_lib.bitmap(w)));
}

/// Where the `k`-th game of a fast drop stands: while still dropping, the
/// piece is one row down per step fired so far; once play is back to
/// normal, it is `max_steps` rows down.
pub open spec fn fast_drop_progress(g0: Game, g: Game) -> bool {
    let t0 = g0.fast_down_timer;
    if g.state == AppState::FastDown {
        &&& g.play_box == (PlayBox {
            pos: shifted(g0.play_box.pos, -(g.fast_down_timer.steps as int), 0),
            ..g0.play_box
        })
        &&& g.game_panel == g0.game_panel
        &&& g.game_lib == g0.game_lib
        &&& g.fast_down_timer.running
        &&& g.fast_down_timer.interval == t0.interval
        &&& g.fast_down_timer.max_steps == t0.max_steps
        &&& g.fast_down_timer.steps <= t0.max_steps
    } else {
        &&& g.state == AppState::Playing
        &&& g.play_box.pos == shifted(g0.play_box.pos, -(t0.max_steps as int), 0)
        &&& g.play_box.index == g0.play_box.index
    }
}

proof fn lemma_fast_drop_prefix(games: Seq<Game>, deltas: Seq<u64>, k: int)
    requires
        games.len() == deltas.len() + 1,
        0 <= k < games.len(),
        games[0].wf(),
        games[0].state == AppState::FastDown,
        games[0].play_box.index is Some,
        games[0].fast_down_timer == games[0].fast_down_timer.started(),
        games[0].play_box.pos.row - games[0].fast_down_timer.max_steps >= -3,
        forall|j: int|
            1 <= j <= games[0].fast_down_timer.max_steps ==> games[0].game_panel.fits(
                games[0].game_lib.bitmap(games[0].play_box.index->Some_0),
                #[trigger] shifted(games[0].play_box.pos, -j, 0),
            ),
        forall|m: int| 0 <= m < deltas.len() ==> #[trigger] Game::fast_step(games[m], deltas[m], games[m + 1]),
        forall|m: int| 0 <= m < deltas.len() ==> (#[trigger] games[m]).state == AppState::FastDown,
    ensures
        fast_drop_progress(games[0], games[k]),
    decreases k,
{
    let g0 = games[0];
    let p0 = g0.play_box.pos;
    lemma_placed_bounds(g0.game_panel, g0.game_lib, g0.play_box);
    if k > 0 {
        lemma_fast_drop_prefix(games, deltas, k - 1);
        let m = k - 1;
        let g = games[m];
        assert(Game::fast_step(games[m], deltas[m], games[m + 1]));
        assert(games[m + 1] == games[k]);
        assert(g.state == AppState::FastDown);
        let s = g.fast_down_timer.steps as int;
        let t = g.fast_down_timer.updated(deltas[k - 1]);
        if g.fast_down_timer.fires(deltas[k - 1]) {
            assert(shifted(g.play_box.pos, -1, 0) == shifted(p0, -(s + 1), 0));
            assert(g0.game_panel.fits(g0.game_lib.bitmap(g0.play_box.index->Some_0), shifted(p0, -(s + 1), 0)));
            assert(t.steps == s + 1);
        } else {
            assert(t.steps == s);
        }
    }
}

/// A fast drop with room below the piece for its whole step budget moves
/// the piece one row per step, whatever the lengths of the ticks, and hands
/// play back exactly when the budget is spent: at that call the piece
/// stands `max_steps` rows below where the drop began. (Room for the whole
/// budget keeps the lowest anchor at most three rows under row 0, which the
/// second bound states in integers.)
pub proof fn lemma_fast_drop_moves_budget(games: Seq<Game>, deltas: Seq<u64>)
    requires
        games.len() == deltas.len() + 1,
        games[0].wf(),
        games[0].state == AppState::FastDown,
        games[0].play_box.index is Some,
        games[0].fast_down_timer == games[0].fast_down_timer.started(),
        games[0].play_box.pos.row - games[0].fast_down_timer.max_steps >= -3,
        forall|j: int|
            1 <= j <= games[0].fast_down_timer.max_steps ==> games[0].game_panel.fits(
                games[0].game_lib.bitmap(games[0].play_box.index->Some_0),
                #[trigger] shifted(games[0].play_box.pos, -j, 0),
            ),
        forall|m: int| 0 <= m < deltas.len() ==> #[trigger] Game::fast_step(games[m], deltas[m], games[m + 1]),
        forall|m: int| 0 <= m < deltas.len() ==> (#[trigger] games[m]).state == AppState::FastDown,
    ensures
        forall|k: int| 0 <= k < games.len() ==> fast_drop_progress(games[0], #[trigger] games[k]),
        games.last().state == AppState::FastDown || games.last().state == AppState::Playing,
        games.last().state == AppState::Playing ==> games.last().play_box.pos == shifted(
            games[0].play_box.pos,
            -(games[0].fast_down_timer.max_steps as int),
            0,
        ),
{
    assert forall|k: int| 0 <= k < games.len() implies fast_drop_progress(games[0], #[trigger] games[k]) by {
        lemma_fast_drop_prefix(games, deltas, k);
    }
    assert(fast_drop_progress(games[0], games[games.len() - 1]));
}

} // verus!
