use pixgine::engine_core::{EngineConfig, PixelScale, VirtualResolution};

#[test]
fn virtual_resolution_default_is_320_by_180() {
    let vr = VirtualResolution::default();
    assert_eq!((vr.width, vr.height), (320, 180));
}

#[test]
fn engine_config_default_values() {
    let c = EngineConfig::default();
    assert_eq!(c.virtual_resolution, VirtualResolution { width: 320, height: 180 });
    assert_eq!(c.window_width, 1920);
    assert_eq!(c.window_height, 1080);
    assert_eq!(c.window_title, "Pixgine");
    assert!(c.vsync);
    assert_eq!(c.target_fps, 60);
    assert_eq!(c.assets_dir, "assets");
}

#[test]
fn pixel_scale_exact_fit() {
    let vr = VirtualResolution { width: 320, height: 180 };
    let s = PixelScale::calculate(&vr, 1280, 720);
    assert_eq!(s, PixelScale { factor: 4, offset_x: 0, offset_y: 0 });
}

#[test]
fn pixel_scale_centres_the_picture() {
    let vr = VirtualResolution { width: 320, height: 180 };
    let s = PixelScale::calculate(&vr, 1000, 600);
    assert_eq!(s, PixelScale { factor: 3, offset_x: 20, offset_y: 30 });
}

#[test]
fn pixel_scale_limited_by_height() {
    let vr = VirtualResolution { width: 320, height: 180 };
    let s = PixelScale::calculate(&vr, 1920, 200);
    assert_eq!(s, PixelScale { factor: 1, offset_x: 800, offset_y: 10 });
}

#[test]
fn pixel_scale_window_equal_to_virtual() {
    let vr = VirtualResolution { width: 320, height: 180 };
    let s = PixelScale::calculate(&vr, 320, 180);
    assert_eq!(s, PixelScale { factor: 1, offset_x: 0, offset_y: 0 });
}
