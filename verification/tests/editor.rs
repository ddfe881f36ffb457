use pixgine::assets::{ImportSettings, TextureType};
use pixgine::editor::drawing::{sheet_texture, sprite_base_extent, tile_look, TileLook};
use pixgine::editor::commands::{key_command, EditorCommand, EditorKey, Tab, TransformMode};
use pixgine::editor::hierarchy::EntityTree;
use pixgine::editor::images::{png_thumbnail, thumbnail_from_rgba, thumbnail_side};
use pixgine::editor::selection::valid_selection;
use pixgine::editor::textures::TextureCache;
use pixgine::editor::order::{move_down, move_up, reconcile_order};
use pixgine::editor::snapshot::{parent_positions, restore_links};
use pixgine::editor::names::{new_entity_name, pasted_name};
use pixgine::editor::recent::{add_recent_file, MAX_RECENT_FILES};
use pixgine::editor::spritesheet::{
    auto_tile_size, auto_tilesheet_grid, import_slicing, import_texture_slicing, settings_slicing, SpritesheetInfo,
};
use pixgine::editor::tiles::{paint_first_visible, palette_index, TL};
use pixgine::editor::undo::UndoHistory;

#[test]
fn spritesheet_info_grid() {
    let s = SpritesheetInfo::new(64, 32, 16, 16);
    assert_eq!((s.cols, s.rows), (4, 2));
    assert_eq!(s.tile_count(), 8);
    assert_eq!(s.tile_cell(5), (1, 1));
    assert_eq!(s.tile_source(5), (16, 16));
    assert_eq!(s.tile_source(3), (48, 0));
}

#[test]
fn spritesheet_zero_tile_counts_one() {
    let s = SpritesheetInfo::new(64, 32, 0, 0);
    assert_eq!((s.cols, s.rows), (1, 1));
    let t = SpritesheetInfo::new(8, 8, 16, 16);
    assert_eq!((t.cols, t.rows), (0, 0));
    assert_eq!(t.tile_count(), 0);
}

#[test]
fn editor_auto_tile_size_is_largest_common_power_of_two() {
    assert_eq!(auto_tile_size(128, 64), 64);
    assert_eq!(auto_tile_size(128, 128), 128);
    assert_eq!(auto_tile_size(10, 12), 2);
    assert_eq!(auto_tile_size(12, 20), 4);
    assert_eq!(auto_tile_size(7, 12), 1);
    assert_eq!(auto_tile_size(1024, 768), 256);
}

#[test]
fn editor_auto_tile_size_of_empty_texture_is_zero() {
    assert_eq!(auto_tile_size(0, 12), 0);
    assert_eq!(auto_tile_size(12, 0), 0);
}

#[test]
fn import_slicing_whole_or_auto() {
    assert_eq!(import_slicing(64, 48, false), SpritesheetInfo::new(64, 48, 64, 48));
    assert_eq!(import_slicing(64, 48, true), SpritesheetInfo::new(64, 48, 16, 16));
}

#[test]
fn settings_slicing_follows_texture_type() {
    let tex = ImportSettings::texture();
    assert_eq!(settings_slicing(&tex, 40, 20), SpritesheetInfo::new(40, 20, 40, 20));
    let sheet = ImportSettings::spritesheet(8, 4);
    assert_eq!(sheet.texture_type, TextureType::Spritesheet);
    let s = settings_slicing(&sheet, 40, 20);
    assert_eq!((s.cols, s.rows, s.tile_w, s.tile_h), (5, 5, 8, 4));
}

#[test]
fn auto_tilesheet_grid_counts() {
    assert_eq!(auto_tilesheet_grid(128, 96), (4, 3, 32));
}

#[test]
fn undo_restores_recorded_snapshot_and_redo_returns() {
    let mut h: UndoHistory<u32> = UndoHistory::new(50);
    h.record(1);
    h.record(2);
    assert_eq!(h.undo(3), Some(2));
    assert_eq!(h.undo(2), Some(1));
    assert_eq!(h.undo(1), None);
    assert_eq!(h.redo(1), Some(2));
    assert_eq!(h.redo(2), Some(3));
    assert_eq!(h.redo(3), None);
    assert_eq!(h.undo_len(), 2);
}

#[test]
fn record_clears_redo_and_respects_capacity() {
    let mut h: UndoHistory<u32> = UndoHistory::new(2);
    h.record(1);
    h.record(2);
    h.record(3);
    assert_eq!(h.undo_len(), 2);
    assert_eq!(h.undo(9), Some(3));
    assert_eq!(h.redo_len(), 1);
    h.record(4);
    assert_eq!(h.redo_len(), 0);
    assert_eq!(h.undo(9), Some(4));
    assert_eq!(h.undo(9), Some(2));
    assert_eq!(h.undo(9), None);
    assert_eq!(h.max_undo(), 2);
}

#[test]
fn zero_capacity_keeps_nothing() {
    let mut h: UndoHistory<u32> = UndoHistory::new(0);
    h.record(1);
    assert_eq!(h.undo_len(), 0);
    assert_eq!(h.undo(2), None);
}

#[test]
fn recent_files_move_to_front_without_duplicates() {
    let mut r = vec!["a".to_string(), "b".to_string(), "c".to_string()];
    add_recent_file(&mut r, "b".to_string());
    assert_eq!(r, vec!["b".to_string(), "a".to_string(), "c".to_string()]);
    add_recent_file(&mut r, "d".to_string());
    assert_eq!(r, vec!["d".to_string(), "b".to_string(), "a".to_string(), "c".to_string()]);
}

#[test]
fn recent_files_keep_ten() {
    let mut r: Vec<String> = Vec::new();
    for i in 0..12 {
        add_recent_file(&mut r, format!("scene{}.json", i));
    }
    assert_eq!(r.len(), MAX_RECENT_FILES);
    assert_eq!(r[0], "scene11.json");
    assert_eq!(r[9], "scene2.json");
}

#[test]
fn new_layers_are_blank() {
    let g = TL::ground();
    assert_eq!(g.name, "Ground");
    assert!(g.vis);
    assert_eq!((g.rows, g.cols, g.ts, g.z_index), (11, 20, 16, 0));
    assert_eq!(g.tiles.len(), 11);
    assert!(g.tiles.iter().all(|row| row.len() == 20 && row.iter().all(|t| *t == 0)));
    assert_eq!(g.spritesheet_tex_id, None);
    assert_eq!(TL::numbered_layer(3).name, "Layer 3");
}

#[test]
fn paint_within_bounds_only() {
    let mut l = TL::ground();
    l.paint(2, 3, 5);
    assert_eq!(l.tiles[2][3], 5);
    l.paint(11, 0, 9);
    l.paint(0, 20, 9);
    assert_eq!(l.visible_tiles(), vec![(2, 3, 5)]);
}

#[test]
fn visible_tiles_row_major_and_hidden_layers_empty() {
    let mut l = TL::ground();
    l.paint(1, 4, 2);
    l.paint(0, 7, 1);
    l.paint(1, 0, 3);
    assert_eq!(l.visible_tiles(), vec![(0, 7, 1), (1, 0, 3), (1, 4, 2)]);
    l.vis = false;
    assert!(l.visible_tiles().is_empty());
}

#[test]
fn paint_goes_to_first_visible_layer() {
    let mut hidden = TL::ground();
    hidden.vis = false;
    let mut layers = vec![hidden, TL::numbered_layer(1), TL::numbered_layer(2)];
    assert_eq!(paint_first_visible(&mut layers, 1, 2, 7), Some(1));
    assert_eq!(layers[1].tiles[1][2], 7);
    assert_eq!(layers[0].tiles[1][2], 0);
    assert_eq!(layers[2].tiles[1][2], 0);
    assert_eq!(paint_first_visible(&mut layers, -1, 2, 7), None);
    assert_eq!(paint_first_visible(&mut layers, 50, 2, 7), None);
}

#[test]
fn palette_index_clamps() {
    assert_eq!(palette_index(1, 4), 0);
    assert_eq!(palette_index(0, 4), 0);
    assert_eq!(palette_index(3, 4), 2);
    assert_eq!(palette_index(99, 4), 3);
    assert_eq!(palette_index(5, 0), 0);
}

#[test]
fn layer_roundtrip_through_scene_data() {
    let mut l = TL::numbered_layer(4);
    l.paint(0, 0, 1);
    l.z_index = 3;
    l.spritesheet_tex_id = Some(9);
    let d = l.into_data();
    assert_eq!(d.name, "Layer 4");
    assert_eq!(d.tile_size, 16);
    let back = TL::from_data(d);
    assert_eq!(back.name, "Layer 4");
    assert_eq!(back.tiles[0][0], 1);
    assert_eq!(back.z_index, 3);
    assert_eq!(back.spritesheet_tex_id, Some(9));
}

#[test]
fn set_parent_moves_child_between_parents() {
    let mut t = EntityTree::new();
    t.set_parent(10, Some(1));
    t.set_parent(11, Some(1));
    assert_eq!(t.children_of(1), vec![10, 11]);
    t.set_parent(10, Some(2));
    assert_eq!(t.parent_of(10), Some(2));
    assert_eq!(t.children_of(1), vec![11]);
    assert_eq!(t.children_of(2), vec![10]);
    t.set_parent(11, None);
    assert_eq!(t.parent_of(11), None);
    assert!(t.children_of(1).is_empty());
}

#[test]
fn reparent_to_same_parent_moves_to_end() {
    let mut t = EntityTree::new();
    t.set_parent(10, Some(1));
    t.set_parent(11, Some(1));
    t.set_parent(10, Some(1));
    assert_eq!(t.children_of(1), vec![11, 10]);
}

#[test]
fn remove_entity_takes_direct_children() {
    let mut t = EntityTree::new();
    t.set_parent(5, Some(1));
    t.set_parent(6, Some(5));
    t.set_parent(7, Some(5));
    t.set_parent(8, Some(6));
    let gone = t.remove_entity(5);
    assert_eq!(gone, vec![6, 7, 5]);
    assert!(t.children_of(1).is_empty());
    assert_eq!(t.parent_of(6), None);
    assert_eq!(t.parent_of(5), None);
    // Grandchildren keep their link to the removed child.
    assert_eq!(t.parent_of(8), Some(6));
}

#[test]
fn link_appends_without_detaching() {
    let mut t = EntityTree::new();
    t.link(3, 1);
    t.link(3, 2);
    assert_eq!(t.parent_of(3), Some(2));
    assert_eq!(t.children_of(1), vec![3]);
    assert_eq!(t.children_of(2), vec![3]);
}

#[test]
fn key_commands() {
    assert_eq!(key_command(EditorKey::W, false), EditorCommand::SetTransformMode(TransformMode::Move));
    assert_eq!(key_command(EditorKey::E, true), EditorCommand::SetTransformMode(TransformMode::Rotate));
    assert_eq!(key_command(EditorKey::R, false), EditorCommand::SetTransformMode(TransformMode::Scale));
    assert_eq!(key_command(EditorKey::C, false), EditorCommand::CopySelected);
    assert_eq!(key_command(EditorKey::V, true), EditorCommand::PasteEntity);
    assert_eq!(key_command(EditorKey::Z, true), EditorCommand::Undo);
    assert_eq!(key_command(EditorKey::Z, false), EditorCommand::Nothing);
    assert_eq!(key_command(EditorKey::Y, true), EditorCommand::Redo);
    assert_eq!(key_command(EditorKey::S, true), EditorCommand::SaveScene);
    assert_eq!(key_command(EditorKey::O, true), EditorCommand::OpenFileDialog);
    assert_eq!(key_command(EditorKey::Equal, false), EditorCommand::ZoomIn);
    assert_eq!(key_command(EditorKey::Minus, false), EditorCommand::ZoomOut);
    assert_eq!(key_command(EditorKey::Digit0, true), EditorCommand::ResetView);
    assert_eq!(key_command(EditorKey::Digit0, false), EditorCommand::Nothing);
    assert_eq!(key_command(EditorKey::Delete, false), EditorCommand::DeleteSelected);
    assert_eq!(key_command(EditorKey::Backspace, false), EditorCommand::DeleteSelected);
    assert_eq!(key_command(EditorKey::Other, true), EditorCommand::Nothing);
    assert_ne!(Tab::Scene, Tab::Import);
}

#[test]
fn entity_names() {
    assert_eq!(new_entity_name(0), "Entity_0");
    assert_eq!(new_entity_name(1234), "Entity_1234");
    let n = "Hero".to_string();
    assert_eq!(pasted_name(Some(&n)), "Hero_copy");
    assert_eq!(pasted_name(None), "Pasted_copy");
}

#[test]
fn tile_looks_from_sheet_or_palette() {
    let mut l = TL::ground();
    assert_eq!(sheet_texture(&l, None), 0);
    assert_eq!(sheet_texture(&l, Some(4)), 4);
    l.spritesheet_tex_id = Some(9);
    assert_eq!(sheet_texture(&l, Some(4)), 9);
    assert_eq!(tile_look(9, 3, 4), TileLook::Sheet { texture: 9, index: 2 });
    assert_eq!(tile_look(0, 3, 4), TileLook::Palette { index: 2 });
    assert_eq!(tile_look(0, 30, 4), TileLook::Palette { index: 3 });
    assert_eq!(sprite_base_extent(0, 24), (16, 24));
    assert_eq!(sprite_base_extent(8, 0), (8, 16));
}

#[test]
fn snapshot_records_parent_positions() {
    let ids = vec![10u64, 20, 30, 40];
    let parents = vec![None, Some(10u64), Some(20u64), Some(99u64)];
    assert_eq!(parent_positions(&ids, &parents), vec![None, Some(0usize), Some(1usize), None]);
}

#[test]
fn snapshot_restores_links_by_position() {
    let pp = vec![None, Some(0usize), Some(0usize), Some(1usize)];
    let l = restore_links(&pp);
    assert_eq!(l.parent_of, pp);
    assert_eq!(l.children_of, vec![vec![1usize, 2], vec![3usize], vec![], vec![]]);
}

#[test]
fn snapshot_round_trip_keeps_hierarchy_with_equal_names() {
    // Positions, not names, tie an entry to its parent.
    let ids = vec![7u64, 8, 9];
    let parents = vec![None, Some(7u64), Some(8u64)];
    let l = restore_links(&parent_positions(&ids, &parents));
    assert_eq!(l.parent_of, vec![None, Some(0usize), Some(1usize)]);
    assert_eq!(l.children_of, vec![vec![1usize], vec![2usize], vec![]]);
}

#[test]
fn entity_order_survives_refresh() {
    assert_eq!(reconcile_order(&vec![3, 1, 2], &vec![1, 2, 3]), vec![3, 1, 2]);
    assert_eq!(reconcile_order(&vec![3, 1, 2], &vec![1, 2, 4, 3]), vec![3, 1, 2, 4]);
    assert_eq!(reconcile_order(&vec![3, 1, 2], &vec![2, 5, 3]), vec![3, 2, 5]);
    assert_eq!(reconcile_order(&vec![], &vec![5, 6]), vec![5, 6]);
}

#[test]
fn move_entries_up_and_down() {
    let mut v = vec![1u64, 2, 3];
    assert!(move_up(&mut v, 2));
    assert_eq!(v, vec![1, 3, 2]);
    assert!(move_down(&mut v, 1));
    assert_eq!(v, vec![1, 2, 3]);
    assert!(!move_up(&mut v, 0));
    assert!(!move_up(&mut v, 3));
    assert!(!move_down(&mut v, 2));
    assert!(!move_down(&mut v, 7));
    assert_eq!(v, vec![1, 2, 3]);
}

fn png_bytes(w: u32, h: u32) -> Vec<u8> {
    let img = image::RgbaImage::new(w, h);
    let mut out = std::io::Cursor::new(Vec::new());
    img.write_to(&mut out, image::ImageFormat::Png).unwrap();
    out.into_inner()
}

#[test]
fn imported_texture_is_sliced_by_its_decoded_size() {
    let bytes = png_bytes(64, 48);
    assert_eq!(import_texture_slicing(&bytes, true), Some(SpritesheetInfo::new(64, 48, 16, 16)));
    assert_eq!(import_texture_slicing(&bytes, false), Some(SpritesheetInfo::new(64, 48, 64, 48)));
    let sheet = png_bytes(96, 32);
    assert_eq!(import_texture_slicing(&sheet, true), Some(SpritesheetInfo::new(96, 32, 32, 32)));
}

#[test]
fn undecodable_texture_is_not_imported() {
    assert_eq!(import_texture_slicing(b"not an image", true), None);
    assert_eq!(import_texture_slicing(&[], false), None);
}

#[test]
fn thumbnail_side_is_shorter_side_up_to_64() {
    assert_eq!(thumbnail_side(200, 50), 50);
    assert_eq!(thumbnail_side(300, 300), 64);
    assert_eq!(thumbnail_side(64, 65), 64);
    assert_eq!(thumbnail_side(0, 5), 0);
}

#[test]
fn thumbnails_are_square() {
    let (w, h, s, px) = png_thumbnail(&png_bytes(100, 80)).unwrap();
    assert_eq!((w, h, s, px.len()), (100, 80, 64, 64 * 64 * 4));
    let (w, h, s, px) = png_thumbnail(&png_bytes(10, 30)).unwrap();
    assert_eq!((w, h, s, px.len()), (10, 30, 10, 10 * 10 * 4));
    assert!(png_thumbnail(b"garbage").is_none());
}

#[test]
fn tile_index_from_source_corner() {
    let s = SpritesheetInfo::new(64, 32, 16, 16);
    assert_eq!(s.tile_at_source(16, 16), 5);
    assert_eq!(s.tile_at_source(48, 0), 3);
    assert_eq!(s.tile_at_source(20, 5), 1);
    assert_eq!(s.tile_at_source(200, 200), 7);
    for i in 0..8 {
        let (x, y) = s.tile_source(i);
        assert_eq!(s.tile_at_source(x, y), i);
    }
    assert_eq!(SpritesheetInfo::new(64, 32, 0, 0).tile_at_source(30, 30), 0);
}

#[test]
fn stale_selection_is_cleared() {
    assert_eq!(valid_selection(Some(3), &vec![1, 3]), Some(3));
    assert_eq!(valid_selection(Some(4), &vec![1, 3]), None);
    assert_eq!(valid_selection(None, &vec![1, 3]), None);
}

#[test]
fn texture_cache_finds_by_name_then_by_path() {
    let mut c = TextureCache::new();
    assert_eq!(c.cached("hero", "assets/hero.png"), None);
    let id = c.allocate("assets/hero.png".to_string());
    assert_eq!(id, 1);
    c.add_imported(id, "hero".to_string());
    assert_eq!(c.cached("hero", "elsewhere.png"), Some(1));
    assert_eq!(c.cached("hero2", "assets/./hero.png"), Some(1));
    assert_eq!(c.cached("hero2", "nowhere.png"), Some(1));
    assert_eq!(c.cached("tiles", "assets/tiles.png"), None);
    assert_eq!(c.allocate("assets/tiles.png".to_string()), 2);
    assert_eq!(c.next_tex(), 3);
}

#[test]
fn thumbnail_resizes_with_nearest_sampling() {
    // A 4 x 2 image whose pixels all differ.
    let px: Vec<u8> = (0..32u8).map(|b| b * 7).collect();
    let (side, thumb) = thumbnail_from_rgba(4, 2, px.clone());
    assert_eq!(side, 2);
    assert_eq!(thumb.len(), 16);
    let img = image::RgbaImage::from_raw(4, 2, px.clone()).unwrap();
    let expected = image::imageops::resize(&img, 2, 2, image::imageops::FilterType::Nearest).into_raw();
    assert_eq!(thumb, expected);
    assert_ne!(thumb[..], px[..16]);
}

#[test]
fn bmp_textures_are_imported_too() {
    let img = image::RgbaImage::new(32, 16);
    let mut out = std::io::Cursor::new(Vec::new());
    img.write_to(&mut out, image::ImageFormat::Bmp).unwrap();
    let bytes = out.into_inner();
    assert_eq!(import_texture_slicing(&bytes, true), Some(SpritesheetInfo::new(32, 16, 16, 16)));
}
