use pixgine::assets::{ImportSettings, TextureFilter, TextureType};

#[test]
fn texture_type_names() {
    assert_eq!(TextureType::Texture.as_str(), "Texture");
    assert_eq!(TextureType::Spritesheet.as_str(), "Spritesheet");
}

#[test]
fn defaults_are_plain_nearest_texture() {
    assert_eq!(TextureType::default(), TextureType::Texture);
    assert_eq!(TextureFilter::default(), TextureFilter::Nearest);
    let s = ImportSettings::default();
    assert_eq!(s.texture_type, TextureType::Texture);
    assert_eq!((s.tile_width, s.tile_height), (16, 16));
    assert_eq!(s.filter, TextureFilter::Nearest);
    assert!(!s.repeat);
    assert!(!s.mipmaps);
    assert_eq!(ImportSettings::texture(), s);
}

#[test]
fn spritesheet_clamps_tile_size_to_one() {
    let s = ImportSettings::spritesheet(0, 24);
    assert_eq!(s.texture_type, TextureType::Spritesheet);
    assert_eq!((s.tile_width, s.tile_height), (1, 24));
    assert_eq!(s.filter, TextureFilter::Nearest);
}

#[test]
fn auto_tile_size_prefers_largest_divisor() {
    assert_eq!(ImportSettings::auto_tile_size(256, 128), 64);
    assert_eq!(ImportSettings::auto_tile_size(64, 48), 16);
    assert_eq!(ImportSettings::auto_tile_size(96, 32), 32);
    assert_eq!(ImportSettings::auto_tile_size(24, 40), 8);
}

#[test]
fn auto_tile_size_falls_back_to_16() {
    assert_eq!(ImportSettings::auto_tile_size(100, 100), 16);
    assert_eq!(ImportSettings::auto_tile_size(10, 10), 16);
    assert_eq!(ImportSettings::auto_tile_size(10, 7), 16);
    assert_eq!(ImportSettings::auto_tile_size(0, 7), 16);
    assert_eq!(ImportSettings::auto_tile_size(0, 0), 16);
}

#[test]
fn auto_spritesheet_uses_detected_size() {
    let s = ImportSettings::auto_spritesheet(128, 64);
    assert_eq!(s.texture_type, TextureType::Spritesheet);
    assert_eq!((s.tile_width, s.tile_height), (64, 64));
}

#[test]
fn grid_counts_are_at_least_one() {
    let s = ImportSettings::spritesheet(16, 8);
    assert_eq!(s.cols(64), 4);
    assert_eq!(s.rows(64), 8);
    assert_eq!(s.tile_count(64, 64), 32);
    assert_eq!(s.cols(10), 1);
    assert_eq!(s.rows(0), 1);
    assert_eq!(s.tile_count(10, 0), 1);
}
