use framewire::thumbnail::{
    bgra_to_rgba, encode_png, fit, icon_size, pixel_bytes, rect_span, to_data_url, window_icon,
    IconSource, IconStep, ThumbnailError, THUMBNAIL_MAX_DIM,
};

fn float_fit(width: u32, height: u32, max_dim: u32) -> (u32, u32) {
    let scale = (max_dim as f32 / width.max(height) as f32).min(1.0);
    (((width as f32 * scale) as u32).max(1), ((height as f32 * scale) as u32).max(1))
}

#[test]
fn sizes_agree_with_floating_point() {
    for width in (1..4000).step_by(37) {
        for height in (1..4000).step_by(41) {
            for max_dim in [1, 16, 239, 240, 1000] {
                assert_eq!(fit(width, height, max_dim), float_fit(width, height, max_dim));
            }
        }
    }
    let mut seed: u64 = 99;
    for _ in 0..20000 {
        seed = seed.wrapping_mul(6364136223846793005).wrapping_add(1442695040888963407);
        let width = ((seed >> 33) as u32 >> (seed % 31) as u32).max(1);
        seed = seed.wrapping_mul(6364136223846793005).wrapping_add(1442695040888963407);
        let height = ((seed >> 33) as u32 >> (seed % 31) as u32).max(1);
        seed = seed.wrapping_mul(6364136223846793005).wrapping_add(1442695040888963407);
        let max_dim = (seed >> 33) as u32 >> (seed % 32) as u32;
        assert_eq!(
            fit(width, height, max_dim),
            float_fit(width, height, max_dim),
            "{width} {height} {max_dim}"
        );
    }
    for n in [u32::MAX, u32::MAX - 127, 16777217, 16777219, 33554431] {
        assert_eq!(fit(n, 3, 240), float_fit(n, 3, 240));
        assert_eq!(fit(n, 3, n), float_fit(n, 3, n));
        assert_eq!(fit(n, n, n - 1), float_fit(n, n, n - 1));
    }
}

#[test]
fn thumbnails_fit_the_card() {
    assert_eq!(fit(1920, 1080, THUMBNAIL_MAX_DIM), (240, 135));
    assert_eq!(fit(1080, 1920, THUMBNAIL_MAX_DIM), (135, 240));
    assert_eq!(fit(240, 100, THUMBNAIL_MAX_DIM), (240, 100));
    assert_eq!(fit(17, 9, THUMBNAIL_MAX_DIM), (17, 9));
    assert_eq!(fit(10000, 1, THUMBNAIL_MAX_DIM), (240, 1));
    assert_eq!(fit(5, 5, 0), (1, 1));
}

#[test]
fn thumbnails_are_never_enlarged() {
    let sides = [1u32, 2, 3, 239, 240, 241, 1080, 65535, 8_388_609, 16_777_215, 16_777_216];
    for width in sides {
        for height in sides {
            for max_dim in [0, 1, 7, 240, 524_289, 8_388_607, 8_547_288, 16_777_217, u32::MAX] {
                let (w, h) = fit(width, height, max_dim);
                assert!(1 <= w && w <= width);
                assert!(1 <= h && h <= height);
            }
        }
    }
    for width in [16_777_217u32, 16_777_219, 4_000_000_001, u32::MAX] {
        for max_dim in [1, 240, 524_289, 8_388_607] {
            let (w, h) = fit(width, 9, max_dim);
            assert!(1 <= w && w <= max_dim);
            assert!(1 <= h && h <= 9);
        }
    }
    // A side that single precision rounds up comes out a pixel longer.
    assert_eq!(fit(16_777_219, 1, 16_777_219), (16_777_220, 1));
    assert_eq!(fit(17_028_872, 1, 8_547_288), (8_547_289, 1));
}

#[test]
fn rectangles_are_at_least_one_wide() {
    assert_eq!(rect_span(-1920, 0), 1920);
    assert_eq!(rect_span(5, 5), 1);
    assert_eq!(rect_span(5, 3), 1);
    assert_eq!(pixel_bytes(240, 135), 129600);
}

#[test]
fn blue_and_red_change_places() {
    let mut bytes = vec![1, 2, 3, 4, 5, 6, 7, 8, 9, 10];
    bgra_to_rgba(&mut bytes);
    assert_eq!(bytes, vec![3, 2, 1, 4, 7, 6, 5, 8, 9, 10]);
    bgra_to_rgba(&mut bytes);
    assert_eq!(bytes, vec![1, 2, 3, 4, 5, 6, 7, 8, 9, 10]);
    let mut empty: Vec<u8> = Vec::new();
    bgra_to_rgba(&mut empty);
    assert!(empty.is_empty());
}

#[test]
fn icons_are_asked_for_in_order() {
    assert_eq!(window_icon(IconSource::Big, 7), IconStep::Use);
    assert_eq!(window_icon(IconSource::Big, 0), IconStep::Ask(IconSource::Small));
    assert_eq!(window_icon(IconSource::Small, 0), IconStep::Ask(IconSource::Class));
    assert_eq!(window_icon(IconSource::Class, 0), IconStep::NoIcon);
    assert_eq!(window_icon(IconSource::Class, -1), IconStep::Use);
}

#[test]
fn icon_sizes() {
    assert_eq!(icon_size(32, 32, true, 240), 32);
    assert_eq!(icon_size(48, 96, false, 240), 48);
    assert_eq!(icon_size(48, 99, false, 240), 49);
    assert_eq!(icon_size(8, 8, true, 240), 16);
    assert_eq!(icon_size(0, -3, true, 240), 16);
    assert_eq!(icon_size(512, 256, true, 240), 240);
    assert_eq!(icon_size(512, 256, true, 3), 16);
}

#[test]
fn png_reads_back_as_the_image() {
    let rgba = vec![255, 0, 0, 255, 0, 255, 0, 128];
    let png = match encode_png(2, 1, rgba.clone()) {
        Ok(png) => png,
        Err(_) => panic!("no png"),
    };
    assert_eq!(&png[..8], b"\x89PNG\r\n\x1a\n");
    let image = image::load_from_memory(&png).unwrap().to_rgba8();
    assert_eq!((image.width(), image.height()), (2, 1));
    assert_eq!(image.into_raw(), rgba);
}

#[test]
fn too_few_bytes_make_no_image() {
    assert!(matches!(encode_png(2, 2, vec![0; 15]), Err(ThumbnailError::InvalidBuffer)));
    assert!(encode_png(2, 2, vec![0; 16]).is_ok());
    assert!(encode_png(2, 2, vec![0; 20]).is_ok());
    assert!(matches!(
        encode_png(u32::MAX, u32::MAX, vec![0; 4]),
        Err(ThumbnailError::InvalidBuffer)
    ));
}

#[test]
fn an_image_without_pixels_can_not_be_written() {
    assert!(matches!(encode_png(0, 0, vec![]), Err(ThumbnailError::Image(_))));
}

#[test]
fn data_urls_hold_the_file() {
    assert_eq!(to_data_url(&vec![]), "data:image/png;base64,");
    assert_eq!(to_data_url(&b"Man".to_vec()), "data:image/png;base64,TWFu");
    assert_eq!(to_data_url(&b"Ma".to_vec()), "data:image/png;base64,TWE=");
    assert_eq!(to_data_url(&vec![0xfb, 0xff]), "data:image/png;base64,+/8=");
}
