use image::GenericImageView;
use image_compressor::config::{
    effective_quality, resolve_config, AppConfig, ProcessConfig, ProcessMode,
};
use image_compressor::dims::compute_target_dims;
use image_compressor::exif;
use image_compressor::pipeline::{ConvertError, Processor};

fn by(s: &str) -> Vec<u8> {
    s.as_bytes().to_vec()
}

fn png_bytes(w: u32, h: u32) -> Vec<u8> {
    let img = image::RgbImage::from_fn(w, h, |x, y| {
        image::Rgb([(x % 256) as u8, (y % 256) as u8, ((x + y) % 256) as u8])
    });
    let mut buf: Vec<u8> = Vec::new();
    img.write_to(&mut std::io::Cursor::new(&mut buf), image::ImageFormat::Png).unwrap();
    buf
}

fn custom_config(max_dim: u32, quality: u8, target_kb: u32) -> ProcessConfig {
    ProcessConfig {
        mode: ProcessMode::Custom,
        max_dim,
        quality,
        target_kb,
        output_dir: None,
        overwrite: false,
        keep_original_name: false,
    }
}

#[test]
fn effective_quality_tiers() {
    assert_eq!(effective_quality(95, 900), 75);
    assert_eq!(effective_quality(95, 0), 95);
    assert_eq!(effective_quality(85, 1000), 85);
    assert_eq!(effective_quality(50, 999), 75);
    assert_eq!(effective_quality(95, 1), 75);
}

#[test]
fn resolve_config_presets() {
    let mut app = AppConfig::default();
    app.mode = ProcessMode::WeChat;
    let c = resolve_config(&app, None);
    assert_eq!((c.max_dim, c.quality, c.target_kb), (2048, 85, 900));
    app.mode = ProcessMode::HD;
    let c = resolve_config(&app, None);
    assert_eq!((c.max_dim, c.quality, c.target_kb), (4096, 95, 5000));
    app.mode = ProcessMode::Custom;
    app.custom_max_dim = 1234;
    app.custom_quality = 42;
    app.custom_target_kb = 7;
    let c = resolve_config(&app, Some(by("out")));
    assert_eq!((c.max_dim, c.quality, c.target_kb), (1234, 42, 7));
    assert_eq!(c.output_dir, Some(by("out")));
}

#[test]
fn resolve_config_overwrite_excludes_keep_name() {
    let mut app = AppConfig::default();
    app.overwrite = true;
    app.keep_original_name = true;
    let c = resolve_config(&app, None);
    assert!(c.overwrite);
    assert!(!c.keep_original_name);
}

#[test]
fn default_config_values() {
    let app = AppConfig::default();
    assert!(matches!(app.mode, ProcessMode::Custom));
    assert_eq!(app.custom_max_dim, 3000);
    assert_eq!(app.custom_quality, 95);
    assert_eq!(app.custom_target_kb, 0);
    assert!(!app.overwrite);
    assert!(!app.keep_original_name);
}

#[test]
fn output_path_wechat_suffix() {
    let mut cfg = custom_config(2048, 85, 900);
    cfg.mode = ProcessMode::WeChat;
    let out = image_compressor::config::derive_output_path(&by("D/photo.jpg"), &cfg);
    assert_eq!(out, by("D/photo_wechat.jpg"));
}

#[test]
fn output_path_keep_original_name() {
    let mut cfg = custom_config(2048, 85, 900);
    cfg.mode = ProcessMode::WeChat;
    cfg.keep_original_name = true;
    let out = image_compressor::config::derive_output_path(&by("D/photo.jpg"), &cfg);
    assert_eq!(out, by("D/photo.jpg"));
}

#[test]
fn output_path_overwrite_in_place() {
    let mut cfg = custom_config(2048, 85, 900);
    cfg.mode = ProcessMode::WeChat;
    cfg.overwrite = true;
    cfg.output_dir = Some(by("elsewhere"));
    let out = image_compressor::config::derive_output_path(&by("D/photo.jpg"), &cfg);
    assert_eq!(out, by("D/photo.jpg"));
}

#[test]
fn output_path_custom_directory_and_suffixes() {
    let mut cfg = custom_config(4096, 95, 5000);
    cfg.mode = ProcessMode::HD;
    cfg.output_dir = Some(by("out"));
    let hd = image_compressor::config::derive_output_path(&by("D/photo.png"), &cfg);
    assert_eq!(hd, by("out/photo_hd.jpg"));
    cfg.mode = ProcessMode::Custom;
    let custom = image_compressor::config::derive_output_path(&by("D/photo.png"), &cfg);
    assert_eq!(custom, by("out/photo_custom.jpg"));
}

#[test]
fn target_dims_hd_scenario() {
    assert_eq!(compute_target_dims(6000, 4000, 4096), (4096, 2731));
    assert_eq!(compute_target_dims(4000, 6000, 4096), (2731, 4096));
}

#[test]
fn target_dims_never_upscale() {
    assert_eq!(compute_target_dims(100, 50, 200), (100, 50));
    assert_eq!(compute_target_dims(200, 200, 200), (200, 200));
    assert_eq!(compute_target_dims(300, 200, 200), (200, 133));
}

#[test]
fn target_dims_extreme_aspect_rounds_to_zero() {
    assert_eq!(compute_target_dims(1, 10000, 100), (0, 100));
}

#[test]
fn exif_find_app1_in_stream() {
    let mut src: Vec<u8> = vec![0xFF, 0xD8];
    src.extend_from_slice(&[0xFF, 0xE0, 0x00, 0x04, 0x01, 0x02]);
    src.extend_from_slice(&[0xFF, 0xE1, 0x00, 0x06, 0x09, 0x08, 0x07, 0x06]);
    src.extend_from_slice(&[0xFF, 0xDA, 0x00, 0x02, 0x00]);
    let (off, len) = exif::find_app1(&src).unwrap();
    assert_eq!((off, len), (8, 8));
    assert_eq!(&src[off..off + len], &[0xFF, 0xE1, 0x00, 0x06, 0x09, 0x08, 0x07, 0x06]);
}

#[test]
fn exif_injected_before_first_segment() {
    let mut src: Vec<u8> = vec![0xFF, 0xD8];
    src.extend_from_slice(&[0xFF, 0xE1, 0x00, 0x04, 0xAA, 0xBB]);
    src.extend_from_slice(&[0xFF, 0xDA, 0x00, 0x02, 0x00]);
    let encoded: Vec<u8> = vec![0xFF, 0xD8, 0xFF, 0xE0, 0x00, 0x04, 0x07, 0x07];
    let out = exif::preserve_metadata(&src, encoded);
    assert_eq!(
        out,
        vec![0xFF, 0xD8, 0xFF, 0xE1, 0x00, 0x04, 0xAA, 0xBB, 0xFF, 0xE0, 0x00, 0x04, 0x07, 0x07]
    );
}

#[test]
fn exif_absent_passes_encoded_through() {
    let src: Vec<u8> = vec![0xFF, 0xD8, 0xFF, 0xDA, 0x00, 0x02, 0x00];
    let encoded: Vec<u8> = vec![0xFF, 0xD8, 0xFF, 0xE0, 0x00, 0x04, 0x07, 0x07];
    let out = exif::preserve_metadata(&src, encoded.clone());
    assert_eq!(out, encoded);
    let not_jpeg: Vec<u8> = vec![0x00, 0x01];
    let out = exif::preserve_metadata(&src, not_jpeg.clone());
    assert_eq!(out, not_jpeg);
}

#[test]
fn convert_downscales_to_cap() {
    let input = png_bytes(100, 60);
    let p = Processor::new(custom_config(50, 90, 0));
    let c = p.convert_standard(&input, false).unwrap();
    assert_eq!((c.width, c.height), (50, 30));
    assert_eq!(&c.bytes[0..2], &[0xFF, 0xD8]);
    let round = image::load_from_memory(&c.bytes).unwrap();
    assert_eq!(round.dimensions(), (50, 30));
}

#[test]
fn convert_within_cap_keeps_dimensions() {
    let input = png_bytes(40, 30);
    let p = Processor::new(custom_config(100, 90, 0));
    let c = p.convert_standard(&input, false).unwrap();
    assert_eq!((c.width, c.height), (40, 30));
    let round = image::load_from_memory(&c.bytes).unwrap();
    assert_eq!(round.dimensions(), (40, 30));
}

#[test]
fn convert_garbage_reports_decode_failure() {
    let p = Processor::new(custom_config(100, 90, 0));
    let r = p.convert_standard(&by("certainly not an image"), false);
    assert!(matches!(r, Err(ConvertError::DecodeFailure)));
}

#[test]
fn convert_extreme_aspect_reports_encode_failure() {
    let input = png_bytes(1, 500);
    let p = Processor::new(custom_config(4, 90, 0));
    let r = p.convert_standard(&input, false);
    assert!(matches!(r, Err(ConvertError::ResizeEncodeFailure)));
}

#[test]
fn convert_jpeg_source_carries_metadata() {
    // First make a plain JPEG, then splice a metadata segment into it and
    // convert that: the output must hold an identical segment at the front.
    let p = Processor::new(custom_config(100, 90, 0));
    let base = p.convert_standard(&png_bytes(40, 30), false).unwrap();
    let seg: Vec<u8> = vec![0xFF, 0xE1, 0x00, 0x06, 0x45, 0x78, 0x69, 0x66];
    let mut with_seg: Vec<u8> = Vec::new();
    with_seg.extend_from_slice(&base.bytes[0..2]);
    with_seg.extend_from_slice(&seg);
    with_seg.extend_from_slice(&base.bytes[2..]);
    let c = p.convert_standard(&with_seg, true).unwrap();
    assert_eq!(&c.bytes[0..2], &[0xFF, 0xD8]);
    assert_eq!(&c.bytes[2..2 + seg.len()], &seg[..]);
    let round = image::load_from_memory(&c.bytes).unwrap();
    assert_eq!(round.dimensions(), (40, 30));
}

#[test]
fn convert_preserves_content_layout() {
    // Top half red, bottom half blue; after an honest downscale the bottom
    // of the output is still blue. Encoding an unresized buffer at the
    // smaller size would show only rows from the top instead.
    let img = image::RgbImage::from_fn(100, 60, |_x, y| {
        if y < 30 {
            image::Rgb([220, 20, 20])
        } else {
            image::Rgb([20, 20, 220])
        }
    });
    let mut buf: Vec<u8> = Vec::new();
    img.write_to(&mut std::io::Cursor::new(&mut buf), image::ImageFormat::Png).unwrap();
    let p = Processor::new(custom_config(50, 90, 0));
    let c = p.convert_standard(&buf, false).unwrap();
    assert_eq!((c.width, c.height), (50, 30));
    let round = image::load_from_memory(&c.bytes).unwrap().to_rgb8();
    let top = round.get_pixel(25, 3);
    let bottom = round.get_pixel(25, 26);
    assert!(top[0] > 150 && top[2] < 100, "top should stay red, got {top:?}");
    assert!(bottom[2] > 150 && bottom[0] < 100, "bottom should stay blue, got {bottom:?}");
}

#[test]
fn convert_bmp_source_within_cap() {
    let img = image::RgbImage::from_fn(32, 20, |x, y| {
        image::Rgb([(x * 7 % 256) as u8, (y * 11 % 256) as u8, 90])
    });
    let mut buf: Vec<u8> = Vec::new();
    img.write_to(&mut std::io::Cursor::new(&mut buf), image::ImageFormat::Bmp).unwrap();
    let p = Processor::new(custom_config(100, 90, 0));
    let c = p.convert_standard(&buf, false).unwrap();
    assert_eq!((c.width, c.height), (32, 20));
    assert_eq!(&c.bytes[0..2], &[0xFF, 0xD8]);
}

#[test]
fn small_size_target_forces_low_quality_tier() {
    let input = png_bytes(80, 80);
    let high = Processor::new(custom_config(100, 95, 0));
    let tiered = Processor::new(custom_config(100, 95, 900));
    let a = high.convert_standard(&input, false).unwrap();
    let b = tiered.convert_standard(&input, false).unwrap();
    assert_ne!(a.bytes, b.bytes);
    assert!(b.bytes.len() < a.bytes.len());
}
