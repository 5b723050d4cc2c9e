use block_drop::board::{GamePanel, PlayBoxRegion};
use block_drop::catalog::{
    BitMap, BoxConfig, BoxIndex, BoxPos, GameConfig, GameLib, GamePanelConfig, PlayBoxConfig,
};
use block_drop::play_box::PlayBox;

const O: BitMap = [[0, 0, 0, 0], [0, 0, 0, 0], [1, 1, 0, 0], [1, 1, 0, 0]];
const FULL: BitMap = [[1; 4]; 4];
const TALL: BitMap = [[1, 0, 0, 0], [1, 0, 0, 0], [1, 0, 0, 0], [1, 0, 0, 0]];

fn lib_with(rows: usize, cols: usize, main_rows: usize, bitmaps: Vec<BitMap>) -> GameLib {
    GameLib::new(GameConfig {
        game_panel_config: GamePanelConfig { size: [rows, cols], main_rows },
        box_config: BoxConfig {
            play_boxes: bitmaps
                .into_iter()
                .map(|b| PlayBoxConfig { bitmaps: [b, b, b, b], level: 1, color: [0, 0, 0, 255] })
                .collect(),
        },
        drop_down_interval: 1000,
        fast_down_interval: 100,
        fast_down_max_steps: 3,
        flash_full_line_interval: 100,
        flash_full_line_max_count: 4,
    })
    .unwrap()
}

fn panel(lib: &GameLib) -> GamePanel {
    GamePanel::new(&lib.config.game_panel_config)
}

fn lock(panel: &mut GamePanel, lib: &GameLib, type_index: usize, row: i32, col: i32, first_id: u64) {
    let index = BoxIndex { type_index, rotate_index: 0 };
    let n = lib.box_pos(&index).len() as u64;
    let mut piece = PlayBox::default();
    piece.init(index, BoxPos::new(row, col), (first_id..first_id + n).collect());
    assert!(panel.can_move_to(&BoxPos::new(row, col), &index, lib));
    panel.put_down_play_box(&mut piece, lib);
    assert!(!piece.is_valid());
}

#[test]
fn new_board_is_empty() {
    let lib = lib_with(6, 4, 5, vec![O]);
    let p = panel(&lib);
    assert_eq!(p.row_count(), 6);
    assert_eq!(p.col_count(), 4);
    assert_eq!(p.height, 0);
    assert!(!p.occupied(0, 0));
    assert!(!p.has_full_lines());
    assert!(!p.reach_top());
}

#[test]
fn inside_and_visible() {
    let lib = lib_with(6, 4, 5, vec![O]);
    let p = panel(&lib);
    assert!(p.is_inside(5, 3));
    assert!(!p.is_inside(6, 0));
    assert!(!p.is_inside(0, -1));
    assert!(!p.is_inside(-1, 0));
    assert!(p.play_region.get_visibility(4, 3));
    assert!(!p.play_region.get_visibility(5, 3));
    let region = PlayBoxRegion::new(2, 2);
    assert!(!region.get_visibility(0, 2));
}

#[test]
fn placement_checks_each_edge() {
    let lib = lib_with(6, 4, 5, vec![O]);
    let mut p = panel(&lib);
    let o = BoxIndex { type_index: 0, rotate_index: 0 };
    assert!(p.can_move_to(&BoxPos::new(0, 0), &o, &lib));
    assert!(p.can_move_to(&BoxPos::new(0, 2), &o, &lib));
    assert!(!p.can_move_to(&BoxPos::new(0, 3), &o, &lib));
    assert!(!p.can_move_to(&BoxPos::new(0, -1), &o, &lib));
    assert!(!p.can_move_to(&BoxPos::new(-1, 0), &o, &lib));
    assert!(p.can_move_to(&BoxPos::new(4, 0), &o, &lib));
    assert!(p.can_move_to(&BoxPos::new(5, 0), &o, &lib));
    p.put_in_entity(1, 1, 7);
    assert!(!p.can_move_to(&BoxPos::new(0, 0), &o, &lib));
    assert!(!p.can_move_to(&BoxPos::new(1, 1), &o, &lib));
    assert!(p.can_move_to(&BoxPos::new(0, 2), &o, &lib));
}

#[test]
fn cells_above_the_grid_do_not_block() {
    let lib = lib_with(6, 4, 5, vec![O]);
    let p = panel(&lib);
    let o = BoxIndex { type_index: 0, rotate_index: 0 };
    assert!(p.can_move_to(&BoxPos::new(5, 1), &o, &lib));
    assert!(p.can_move_to(&BoxPos::new(6, 1), &o, &lib));
    assert!(p.can_move_to(&BoxPos::new(40, 2), &o, &lib));
    assert!(!p.can_move_to(&BoxPos::new(40, 3), &o, &lib));
    assert!(p.above_top(&BoxPos::new(5, 1), &o, &lib));
    assert!(!p.above_top(&BoxPos::new(4, 1), &o, &lib));
}

#[test]
fn full_block_may_reach_above_a_small_board() {
    let lib = lib_with(4, 4, 4, vec![FULL]);
    let mut p = panel(&lib);
    let index = BoxIndex { type_index: 0, rotate_index: 0 };
    assert!(p.can_move_to(&BoxPos::new(1, 0), &index, &lib));
    p.put_in_entity(0, 3, 1);
    assert!(p.can_move_to(&BoxPos::new(1, 0), &index, &lib));
    p.put_in_entity(2, 3, 2);
    assert!(!p.can_move_to(&BoxPos::new(1, 0), &index, &lib));
}

#[test]
fn lock_drops_cells_above_the_grid() {
    let lib = lib_with(4, 4, 4, vec![TALL]);
    let mut p = panel(&lib);
    let index = BoxIndex { type_index: 0, rotate_index: 0 };
    let mut piece = PlayBox::default();
    piece.init(index, BoxPos::new(2, 0), vec![10, 11, 12, 13]);
    assert!(p.can_move_to(&BoxPos::new(2, 0), &index, &lib));
    p.put_down_play_box(&mut piece, &lib);
    assert_eq!(p.boxes[2][0], Some(10));
    assert_eq!(p.boxes[3][0], Some(11));
    assert_eq!(p.boxes[1][0], None);
    assert_eq!(p.height, 4);
}

#[test]
fn put_in_entity_raises_height() {
    let lib = lib_with(6, 4, 5, vec![O]);
    let mut p = panel(&lib);
    p.put_in_entity(3, 2, 42);
    assert!(p.occupied(3, 2));
    assert_eq!(p.boxes[3][2], Some(42));
    assert_eq!(p.height, 4);
    p.put_in_entity(0, 0, 43);
    assert_eq!(p.height, 4);
}

#[test]
fn spawn_is_centred_below_the_visible_top() {
    let lib = lib_with(8, 5, 6, vec![O]);
    let p = panel(&lib);
    let o = BoxIndex { type_index: 0, rotate_index: 0 };
    assert_eq!(p.init_pos(&o, &lib), Some(BoxPos::new(4, 1)));
}

#[test]
fn spawn_probes_upward_when_blocked() {
    let lib = lib_with(8, 4, 6, vec![O]);
    let mut p = panel(&lib);
    p.put_in_entity(4, 1, 1);
    let o = BoxIndex { type_index: 0, rotate_index: 0 };
    assert_eq!(p.init_pos(&o, &lib), Some(BoxPos::new(5, 1)));
}

#[test]
fn spawn_fails_when_every_row_collides() {
    let lib = lib_with(8, 4, 6, vec![O]);
    let mut p = panel(&lib);
    for r in 0..8 {
        p.put_in_entity(r, 1, r as u64);
    }
    let o = BoxIndex { type_index: 0, rotate_index: 0 };
    assert_eq!(p.init_pos(&o, &lib), None);
    assert!(p.reach_top());
}

#[test]
fn full_rows_after_locking_a_full_block() {
    let lib = lib_with(4, 4, 4, vec![FULL]);
    let mut p = panel(&lib);
    lock(&mut p, &lib, 0, 0, 0, 100);
    assert_eq!(p.full_rows, vec![0, 1, 2, 3]);
    p.check_full_rows(0, 4);
    assert_eq!(p.full_rows, vec![0, 1, 2, 3]);
    assert_eq!(p.height, 4);
    p.remove_full_rows();
    assert_eq!(p.height, 0);
    assert!(p.full_rows.is_empty());
    for r in 0..4 {
        for c in 0..4 {
            assert!(!p.occupied(r, c));
        }
    }
}

#[test]
fn lock_keeps_occupied_cells() {
    let lib = lib_with(6, 4, 5, vec![O, TALL]);
    let mut p = panel(&lib);
    p.put_in_entity(0, 0, 9);
    lock(&mut p, &lib, 1, 1, 0, 50);
    assert_eq!(p.boxes[0][0], Some(9));
    assert_eq!(p.boxes[1][0], Some(50));
    assert_eq!(p.boxes[4][0], Some(53));
    assert_eq!(p.height, 5);
    assert!(p.full_rows.is_empty());
}

#[test]
fn row_clear_keeps_order_of_surviving_rows() {
    let lib = lib_with(8, 3, 8, vec![O]);
    let mut p = panel(&lib);
    for r in 0..6i32 {
        if r == 2 || r == 5 {
            for c in 0..3 {
                p.put_in_entity(r, c, 200 + (r * 3 + c) as u64);
            }
        } else {
            p.put_in_entity(r, 0, 10 * r as u64 + 1);
        }
    }
    assert_eq!(p.height, 6);
    p.check_full_rows(0, 6);
    assert_eq!(p.full_rows, vec![2, 5]);
    assert!(p.is_full_row(2));
    assert!(!p.is_full_row(3));
    p.remove_full_rows();
    assert_eq!(p.height, 4);
    assert_eq!(p.boxes[0], vec![Some(1), None, None]);
    assert_eq!(p.boxes[1], vec![Some(11), None, None]);
    assert_eq!(p.boxes[2], vec![Some(31), None, None]);
    assert_eq!(p.boxes[3], vec![Some(41), None, None]);
    assert_eq!(p.boxes[4], vec![None, None, None]);
    assert_eq!(p.boxes[5], vec![None, None, None]);
}

#[test]
fn row_clear_of_adjacent_rows() {
    let lib = lib_with(6, 2, 6, vec![O]);
    let mut p = panel(&lib);
    p.put_in_entity(0, 0, 1);
    p.put_in_entity(0, 1, 2);
    p.put_in_entity(1, 0, 3);
    p.put_in_entity(1, 1, 4);
    p.put_in_entity(2, 1, 5);
    p.check_full_rows(0, 3);
    assert_eq!(p.full_rows, vec![0, 1]);
    p.remove_full_rows();
    assert_eq!(p.height, 1);
    assert_eq!(p.boxes[0], vec![None, Some(5)]);
    assert_eq!(p.boxes[1], vec![None, None]);
    assert_eq!(p.boxes[2], vec![None, None]);
}

#[test]
fn clearing_no_rows_changes_nothing() {
    let lib = lib_with(6, 3, 5, vec![O]);
    let mut p = panel(&lib);
    p.put_in_entity(0, 0, 1);
    p.put_in_entity(2, 1, 2);
    let before = format!("{:?}", p);
    p.remove_full_rows();
    assert_eq!(format!("{:?}", p), before);
}

#[test]
fn toggling_full_row_visibility() {
    let lib = lib_with(6, 3, 5, vec![O]);
    let mut p = panel(&lib);
    assert!(p.full_rows_visible);
    p.toggle_full_rows_visibility();
    assert!(!p.full_rows_visible);
    p.toggle_full_rows_visibility();
    assert!(p.full_rows_visible);
}

#[test]
fn reaching_the_top() {
    let lib = lib_with(6, 3, 4, vec![O]);
    let mut p = panel(&lib);
    p.put_in_entity(2, 0, 1);
    assert!(!p.reach_top());
    p.put_in_entity(3, 0, 2);
    assert!(p.reach_top());
}

#[test]
fn spawn_places_the_bounding_box_not_the_frame() {
    let t: BitMap = [[0, 0, 0, 0], [0, 1, 0, 0], [1, 1, 1, 0], [0, 0, 0, 0]];
    let lib = lib_with(8, 5, 6, vec![t]);
    let p = panel(&lib);
    let index = BoxIndex { type_index: 0, rotate_index: 0 };
    assert_eq!(lib.box_corner(&index), BoxPos::new(1, 0));
    // box 3 wide, 2 high: centred at column 1, bottom at row 4, frame one row lower
    assert_eq!(p.init_pos(&index, &lib), Some(BoxPos::new(3, 1)));
}

#[test]
fn spawn_centres_a_box_that_starts_right_of_the_frame() {
    let tall: BitMap = [[0, 0, 1, 0], [0, 0, 1, 0], [0, 0, 1, 0], [0, 0, 1, 0]];
    let lib = lib_with(8, 5, 6, vec![tall]);
    let p = panel(&lib);
    let index = BoxIndex { type_index: 0, rotate_index: 0 };
    assert_eq!(lib.box_corner(&index), BoxPos::new(0, 2));
    assert_eq!(p.init_pos(&index, &lib), Some(BoxPos::new(2, 0)));
}
