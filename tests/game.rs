use block_drop::catalog::{
    BitMap, BoxConfig, BoxIndex, BoxPos, GameConfig, GameLib, GamePanelConfig, PlayBoxConfig,
};
use block_drop::game::{AppState, Game, Key, Preview};
use block_drop::play_box::IndexGen;

const O: BitMap = [[0, 0, 0, 0], [0, 0, 0, 0], [1, 1, 0, 0], [1, 1, 0, 0]];
const I_FLAT: BitMap = [[0, 0, 0, 0], [0, 0, 0, 0], [0, 0, 0, 0], [1, 1, 1, 1]];
const I_TALL: BitMap = [[0, 1, 0, 0], [0, 1, 0, 0], [0, 1, 0, 0], [0, 1, 0, 0]];

fn game(rows: usize, cols: usize, main_rows: usize, bitmaps: [BitMap; 4]) -> Game {
    let lib = GameLib::new(GameConfig {
        game_panel_config: GamePanelConfig { size: [rows, cols], main_rows },
        box_config: BoxConfig {
            play_boxes: vec![PlayBoxConfig { bitmaps, level: 1, color: [1, 2, 3, 255] }],
        },
        drop_down_interval: 100,
        fast_down_interval: 10,
        fast_down_max_steps: 3,
        flash_full_line_interval: 100,
        flash_full_line_max_count: 4,
    })
    .unwrap();
    Game::setup_game(lib, IndexGen::with_seed(1, 4, 7))
}

#[test]
fn first_tick_spawns_a_piece() {
    let mut g = game(10, 4, 8, [O, O, O, O]);
    assert_eq!(g.state, AppState::InitBox);
    g.update(0, None);
    assert_eq!(g.state, AppState::Playing);
    assert!(g.play_box.is_valid());
    assert_eq!(*g.play_box.pos(), BoxPos::new(6, 1));
    assert_eq!(g.play_box.entities.len(), 4);
    assert!(g.preview.play_box.is_valid());
}

#[test]
fn moves_left_and_right_within_the_walls() {
    let mut g = game(10, 4, 8, [O, O, O, O]);
    g.update(0, None);
    g.update(0, Some(Key::ArrowLeft));
    assert_eq!(g.play_box.pos().col, 0);
    g.update(0, Some(Key::ArrowLeft));
    assert_eq!(g.play_box.pos().col, 0);
    g.update(0, Some(Key::ArrowRight));
    g.update(0, Some(Key::ArrowRight));
    assert_eq!(g.play_box.pos().col, 2);
    g.update(0, Some(Key::ArrowRight));
    assert_eq!(g.play_box.pos().col, 2);
}

#[test]
fn rotation_into_an_occupied_cell_is_refused() {
    let mut g = game(10, 4, 8, [I_FLAT, I_TALL, I_FLAT, I_TALL]);
    g.update(0, None);
    g.play_box.index = Some(BoxIndex { type_index: 0, rotate_index: 0 });
    g.play_box.pos = BoxPos::new(0, 0);
    g.game_panel.put_in_entity(2, 1, 999);
    g.process_input(Key::ArrowUp);
    assert_eq!(g.play_box.index(), Some(&BoxIndex { type_index: 0, rotate_index: 0 }));
    assert_eq!(*g.play_box.pos(), BoxPos::new(0, 0));
}

#[test]
fn rotation_past_the_grid_top_is_allowed() {
    let mut g = game(6, 4, 4, [I_FLAT, I_TALL, I_FLAT, I_TALL]);
    g.update(0, None);
    g.play_box.index = Some(BoxIndex { type_index: 0, rotate_index: 0 });
    g.play_box.pos = BoxPos::new(3, 0);
    g.process_input(Key::ArrowUp);
    assert_eq!(g.play_box.index().unwrap().rotate_index, 1);
}

#[test]
fn locking_above_the_grid_stops_the_game() {
    let mut g = game(6, 5, 4, [I_FLAT, I_TALL, I_FLAT, I_TALL]);
    g.update(0, None);
    g.game_panel.put_in_entity(2, 1, 900);
    g.play_box.index = Some(BoxIndex { type_index: 0, rotate_index: 1 });
    g.play_box.pos = BoxPos::new(3, 0);
    let ids = g.play_box.entities.clone();
    g.update(100, None);
    assert_eq!(g.state, AppState::Stopped);
    assert!(!g.play_box.is_valid());
    assert_eq!(g.game_panel.boxes[3][1], Some(ids[0]));
    assert_eq!(g.game_panel.boxes[5][1], Some(ids[2]));
    assert_eq!(g.game_panel.height, 6);
}

#[test]
fn rotation_that_fits_happens() {
    let mut g = game(10, 4, 8, [I_FLAT, I_TALL, I_FLAT, I_TALL]);
    g.update(0, None);
    g.play_box.index = Some(BoxIndex { type_index: 0, rotate_index: 3 });
    g.play_box.pos = BoxPos::new(0, 0);
    g.update(0, Some(Key::ArrowUp));
    assert_eq!(g.play_box.index(), Some(&BoxIndex { type_index: 0, rotate_index: 0 }));
}

#[test]
fn spawn_failure_stops_the_game() {
    let mut g = game(8, 4, 6, [O, O, O, O]);
    for r in 0..8 {
        g.game_panel.put_in_entity(r, 1, 500 + r as u64);
    }
    g.drop_down_timer.pause();
    let timer = format!("{:?}", g.drop_down_timer);
    g.update(0, None);
    assert_eq!(format!("{:?}", g.drop_down_timer), timer);
    assert_eq!(g.state, AppState::Stopped);
    assert!(!g.play_box.is_valid());
    let before = format!("{:?}", g.game_panel);
    g.update(1000, Some(Key::ArrowLeft));
    assert_eq!(g.state, AppState::Stopped);
    assert_eq!(format!("{:?}", g.game_panel), before);
}

#[test]
fn fast_drop_moves_exactly_its_step_budget() {
    let mut g = game(12, 4, 8, [O, O, O, O]);
    g.game_panel.put_in_entity(0, 1, 900);
    g.update(0, None);
    assert_eq!(*g.play_box.pos(), BoxPos::new(6, 1));
    g.update(0, Some(Key::ArrowDown));
    assert_eq!(g.state, AppState::FastDown);
    g.update(10, None);
    assert_eq!(g.play_box.pos().row, 5);
    assert_eq!(g.state, AppState::FastDown);
    g.update(10, None);
    assert_eq!(g.play_box.pos().row, 4);
    g.update(10, None);
    assert_eq!(g.play_box.pos().row, 3);
    assert_eq!(g.state, AppState::Playing);
    assert!(!g.fast_down_timer.running);
}

#[test]
fn fast_drop_refused_when_resting() {
    let mut g = game(10, 4, 8, [O, O, O, O]);
    g.update(0, None);
    g.play_box.pos = BoxPos::new(0, 1);
    g.update(0, Some(Key::ArrowDown));
    assert_eq!(g.state, AppState::Playing);
    assert!(!g.fast_down_timer.running);
}

#[test]
fn fast_drop_onto_the_stack_locks() {
    let mut g = game(10, 4, 8, [O, O, O, O]);
    g.update(0, None);
    g.play_box.pos = BoxPos::new(1, 1);
    g.update(0, Some(Key::ArrowDown));
    assert_eq!(g.state, AppState::FastDown);
    g.update(10, None);
    assert_eq!(g.play_box.pos().row, 0);
    g.update(10, None);
    assert!(!g.play_box.is_valid());
    assert_eq!(g.state, AppState::InitBox);
    assert!(g.game_panel.occupied(0, 1) && g.game_panel.occupied(1, 2));
    assert_eq!(g.game_panel.height, 2);
}

#[test]
fn gravity_lock_full_rows_flash_and_clear() {
    let mut g = game(6, 2, 4, [O, O, O, O]);
    g.update(0, None);
    assert_eq!(*g.play_box.pos(), BoxPos::new(2, 0));
    g.update(100, None);
    assert_eq!(g.play_box.pos().row, 1);
    g.update(100, None);
    assert_eq!(g.play_box.pos().row, 0);
    g.update(100, None);
    assert_eq!(g.state, AppState::Flashing);
    assert_eq!(g.game_panel.full_rows, vec![0, 1]);
    assert!(g.game_panel.full_rows_visible);
    assert!(g.drop_down_timer.paused);
    g.update(100, None);
    assert!(!g.game_panel.full_rows_visible);
    g.update(100, None);
    assert!(g.game_panel.full_rows_visible);
    g.update(100, None);
    assert_eq!(g.state, AppState::Flashing);
    g.update(100, None);
    assert_eq!(g.state, AppState::InitBox);
    assert_eq!(g.game_panel.height, 0);
    assert!(g.game_panel.full_rows.is_empty());
    assert!(!g.game_panel.occupied(0, 0));
    g.update(0, None);
    assert_eq!(g.state, AppState::Playing);
    assert!(!g.drop_down_timer.paused);
}

#[test]
fn stack_reaching_the_top_stops_the_game() {
    let mut g = game(6, 3, 4, [O, O, O, O]);
    g.update(0, None);
    for _ in 0..3 {
        g.update(100, None);
    }
    assert_eq!(g.state, AppState::InitBox);
    assert_eq!(g.game_panel.height, 2);
    g.update(0, None);
    assert_eq!(*g.play_box.pos(), BoxPos::new(2, 0));
    g.update(100, None);
    assert_eq!(g.state, AppState::Stopped);
    assert_eq!(g.game_panel.height, 4);
}

#[test]
fn waiting_piece_enters_next() {
    let mut g = game(10, 5, 8, [I_FLAT, I_TALL, I_FLAT, I_TALL]);
    g.update(0, None);
    let waiting = *g.preview.play_box.index().unwrap();
    let ids = g.preview.play_box.entities.clone();
    g.play_box.pos = BoxPos::new(0, g.play_box.pos().col);
    g.update(100, None);
    assert_eq!(g.state, AppState::InitBox);
    g.update(0, None);
    assert_eq!(g.play_box.index(), Some(&waiting));
    assert_eq!(g.play_box.entities, ids);
}

#[test]
fn preview_draws_only_when_empty() {
    let lib = GameLib::new(GameConfig {
        game_panel_config: GamePanelConfig { size: [6, 4], main_rows: 4 },
        box_config: BoxConfig {
            play_boxes: vec![PlayBoxConfig { bitmaps: [O, O, O, O], level: 1, color: [0; 4] }],
        },
        drop_down_interval: 1,
        fast_down_interval: 1,
        fast_down_max_steps: 1,
        flash_full_line_interval: 1,
        flash_full_line_max_count: 1,
    })
    .unwrap();
    let mut gen = IndexGen::with_seed(1, 4, 3);
    let mut next: u64 = 10;
    let mut p = Preview::new();
    assert!(!p.play_box.is_valid());
    p.init_box(&mut gen, &lib, &mut next);
    assert!(p.play_box.is_valid());
    assert_eq!(p.play_box.entities, vec![10, 11, 12, 13]);
    assert_eq!(next, 14);
    p.init_box(&mut gen, &lib, &mut next);
    assert_eq!(next, 14);
}

#[test]
fn falling_piece_cells_and_colour() {
    let mut g = game(10, 4, 8, [O, O, O, O]);
    assert!(g.play_box_cells().is_empty());
    assert_eq!(g.play_box_color(), None);
    g.update(0, None);
    assert_eq!(
        g.play_box_cells(),
        vec![BoxPos::new(6, 1), BoxPos::new(6, 2), BoxPos::new(7, 1), BoxPos::new(7, 2)]
    );
    assert_eq!(g.play_box_color(), Some([1, 2, 3, 255]));
}
