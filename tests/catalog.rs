use block_drop::catalog::{
    set_opt_max, set_opt_min, BitMap, BoxConfig, BoxIndex, BoxPos, ConfigError, GameConfig,
    GameLib, GamePanelConfig, ISize, PlayBoxConfig,
};

const O: BitMap = [[0, 0, 0, 0], [0, 0, 0, 0], [1, 1, 0, 0], [1, 1, 0, 0]];
const T: BitMap = [[0, 0, 0, 0], [0, 0, 0, 0], [0, 1, 0, 0], [1, 1, 1, 0]];
const I_FLAT: BitMap = [[0, 0, 0, 0], [0, 0, 0, 0], [0, 0, 0, 0], [1, 1, 1, 1]];
const I_TALL: BitMap = [[0, 1, 0, 0], [0, 1, 0, 0], [0, 1, 0, 0], [0, 1, 0, 0]];
const EMPTY: BitMap = [[0; 4]; 4];

fn piece(bitmaps: [BitMap; 4]) -> PlayBoxConfig {
    PlayBoxConfig { bitmaps, level: 1, color: [10, 20, 30, 255] }
}

fn config(pieces: Vec<PlayBoxConfig>) -> GameConfig {
    GameConfig {
        game_panel_config: GamePanelConfig { size: [24, 10], main_rows: 20 },
        box_config: BoxConfig { play_boxes: pieces },
        drop_down_interval: 500_000,
        fast_down_interval: 20_000,
        fast_down_max_steps: 5,
        flash_full_line_interval: 100_000,
        flash_full_line_max_count: 6,
    }
}

#[test]
fn bounding_box_of_t_piece() {
    let p = piece([T, T, T, T]);
    assert_eq!(p.bmp_size(0), ISize { width: 3, height: 2 });
}

#[test]
fn bounding_box_of_line_rotations() {
    let p = piece([I_FLAT, I_TALL, I_FLAT, I_TALL]);
    assert_eq!(p.bmp_size(0), ISize { width: 4, height: 1 });
    assert_eq!(p.bmp_size(1), ISize { width: 1, height: 4 });
}

#[test]
fn bounding_box_of_empty_bitmap_is_zero() {
    let p = piece([EMPTY, O, O, O]);
    assert_eq!(p.bmp_size(0), ISize { width: 0, height: 0 });
}

#[test]
fn bounding_box_of_offset_cells() {
    let bmp: BitMap = [[0, 0, 0, 0], [0, 0, 1, 0], [0, 0, 1, 1], [0, 0, 0, 0]];
    let p = piece([bmp, bmp, bmp, bmp]);
    assert_eq!(p.bmp_size(0), ISize { width: 2, height: 2 });
}

#[test]
fn cell_offsets_bottom_row_first() {
    let p = piece([T, T, T, T]);
    assert_eq!(
        p.box_pos(0),
        vec![BoxPos::new(0, 0), BoxPos::new(0, 1), BoxPos::new(0, 2), BoxPos::new(1, 1)]
    );
}

#[test]
fn cell_offsets_of_tall_line() {
    let p = piece([I_FLAT, I_TALL, I_FLAT, I_TALL]);
    assert_eq!(
        p.box_pos(1),
        vec![BoxPos::new(0, 1), BoxPos::new(1, 1), BoxPos::new(2, 1), BoxPos::new(3, 1)]
    );
}

#[test]
fn colour_is_kept() {
    assert_eq!(piece([O, O, O, O]).color(), [10, 20, 30, 255]);
}

#[test]
fn optional_minimum_and_maximum() {
    let mut lo: Option<usize> = None;
    let mut hi: Option<usize> = None;
    for v in [3usize, 1, 2] {
        set_opt_min(&mut lo, &v);
        set_opt_max(&mut hi, &v);
    }
    assert_eq!(lo, Some(1));
    assert_eq!(hi, Some(3));
}

#[test]
fn rotation_index_wraps() {
    let mut i = BoxIndex { type_index: 2, rotate_index: 3 };
    i.rotate();
    assert_eq!(i, BoxIndex { type_index: 2, rotate_index: 0 });
    i.rotate();
    assert_eq!(i.rotate_index, 1);
}

#[test]
fn panel_config_counts() {
    let c = GamePanelConfig { size: [24, 10], main_rows: 20 };
    assert_eq!(c.row_count(), 24);
    assert_eq!(c.col_count(), 10);
    assert!(c.is_valid());
    assert!(!GamePanelConfig { size: [4, 10], main_rows: 5 }.is_valid());
}

#[test]
fn library_caches_sizes_and_cells() {
    let lib = GameLib::new(config(vec![piece([O, O, O, O]), piece([I_FLAT, I_TALL, I_FLAT, I_TALL])]))
        .unwrap();
    let tall = BoxIndex { type_index: 1, rotate_index: 1 };
    assert_eq!(*lib.box_size(&tall), ISize { width: 1, height: 4 });
    assert_eq!(lib.box_pos(&tall).len(), 4);
    assert_eq!(lib.config.box_config.play_box_type_count(), 2);
    assert_eq!(*lib.config.box_config.play_box_bitmap(&tall), I_TALL);
}

#[test]
fn config_error_bad_panel_size() {
    let mut c = config(vec![piece([O, O, O, O])]);
    c.game_panel_config.size = [0, 10];
    assert_eq!(GameLib::new(c).unwrap_err(), ConfigError::BadPanelSize);
    let mut c = config(vec![piece([O, O, O, O])]);
    c.game_panel_config.main_rows = 25;
    assert_eq!(GameLib::new(c).unwrap_err(), ConfigError::BadPanelSize);
}

#[test]
fn config_error_zero_interval() {
    let mut c = config(vec![piece([O, O, O, O])]);
    c.fast_down_interval = 0;
    assert_eq!(GameLib::new(c).unwrap_err(), ConfigError::ZeroInterval);
}

#[test]
fn config_error_no_piece_types() {
    assert_eq!(GameLib::new(config(vec![])).unwrap_err(), ConfigError::NoPieceTypes);
}

#[test]
fn config_error_empty_bitmap() {
    let c = config(vec![piece([O, O, O, O]), piece([T, T, EMPTY, T])]);
    assert_eq!(
        GameLib::new(c).unwrap_err(),
        ConfigError::EmptyBitmap { type_index: 1, rotate_index: 2 }
    );
}

#[test]
fn config_error_uneven_rotations() {
    let corner: BitMap = [[0, 0, 0, 0], [0, 0, 0, 0], [1, 0, 0, 0], [1, 1, 0, 0]];
    let c = config(vec![piece([O, corner, O, O])]);
    assert_eq!(GameLib::new(c).unwrap_err(), ConfigError::UnevenRotations { type_index: 0 });
}
