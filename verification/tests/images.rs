use bevy_egui::{update_image_rect, Color32, ColorImage};

fn color(v: u8) -> Color32 {
    Color32 { r: v, g: v, b: v, a: 255 }
}

fn numbered(width: usize, height: usize, start: u8) -> ColorImage {
    let pixels: Vec<Color32> = (0..width * height).map(|i| color(start + i as u8)).collect();
    ColorImage::from_pixels([width, height], pixels).unwrap()
}

#[test]
fn new_image_is_filled() {
    let image = ColorImage::new([3, 2], color(9)).unwrap();
    assert_eq!(image.width(), 3);
    assert_eq!(image.height(), 2);
    assert_eq!(image.pixels.len(), 6);
    assert!(image.pixels.iter().all(|p| *p == color(9)));
    assert!(image.is_well_formed());
}

#[test]
fn new_image_too_large_is_refused() {
    assert!(ColorImage::new([usize::MAX, 2], color(0)).is_none());
}

#[test]
fn from_pixels_checks_count() {
    assert!(ColorImage::from_pixels([2, 2], vec![color(0); 3]).is_none());
    assert!(ColorImage::from_pixels([2, 2], vec![color(0); 4]).is_some());
    assert!(ColorImage::from_pixels([0, 5], vec![]).is_some());
    assert!(ColorImage::from_pixels([usize::MAX, 2], vec![color(0); 4]).is_none());
}

#[test]
fn malformed_image_is_detected() {
    let image = ColorImage { size: [2, 2], pixels: vec![color(0); 5] };
    assert!(!image.is_well_formed());
}

#[test]
fn pixel_is_read_row_by_row() {
    let image = numbered(3, 2, 10);
    assert_eq!(image.pixel(0, 0), color(10));
    assert_eq!(image.pixel(2, 0), color(12));
    assert_eq!(image.pixel(0, 1), color(13));
    assert_eq!(image.pixel(2, 1), color(15));
}

#[test]
fn patch_overwrites_only_its_rectangle() {
    let mut dest = numbered(4, 3, 0);
    let src = numbered(2, 2, 100);
    assert!(dest.patch_fits([1, 1], &src));
    update_image_rect(&mut dest, [1, 1], &src);
    let expected: Vec<u8> = vec![0, 1, 2, 3, 4, 100, 101, 7, 8, 102, 103, 11];
    let got: Vec<u8> = dest.pixels.iter().map(|p| p.r).collect();
    assert_eq!(got, expected);
    assert_eq!(dest.size, [4, 3]);
}

#[test]
fn patch_in_the_corner() {
    let mut dest = numbered(3, 3, 0);
    let src = numbered(1, 2, 50);
    update_image_rect(&mut dest, [2, 1], &src);
    let got: Vec<u8> = dest.pixels.iter().map(|p| p.r).collect();
    assert_eq!(got, vec![0, 1, 2, 3, 4, 50, 6, 7, 51]);
}

#[test]
fn patch_of_whole_image_replaces_it() {
    let mut dest = numbered(2, 2, 0);
    let src = numbered(2, 2, 200);
    update_image_rect(&mut dest, [0, 0], &src);
    assert_eq!(dest.pixels, src.pixels);
}

#[test]
fn empty_patch_changes_nothing() {
    let mut dest = numbered(2, 2, 0);
    let src = ColorImage::from_pixels([0, 7], vec![]).unwrap();
    assert!(dest.patch_fits([9, 9], &src));
    update_image_rect(&mut dest, [9, 9], &src);
    assert_eq!(dest.pixels, numbered(2, 2, 0).pixels);
}

#[test]
fn patch_fits_checks_both_axes() {
    let dest = numbered(4, 3, 0);
    let src = numbered(2, 2, 0);
    assert!(dest.patch_fits([2, 1], &src));
    assert!(!dest.patch_fits([3, 1], &src));
    assert!(!dest.patch_fits([2, 2], &src));
    assert!(!dest.patch_fits([usize::MAX, 0], &src));
    assert!(!dest.patch_fits([0, usize::MAX], &src));
}

#[test]
fn clone_copies_pixels() {
    let image = numbered(2, 2, 5);
    let copy = image.clone();
    assert_eq!(copy.size, image.size);
    assert_eq!(copy.pixels, image.pixels);
}

#[test]
fn flatten_lays_pixels_out_in_order() {
    let bytes = bevy_egui::flatten_rgba(&vec![[1, 2, 3, 4], [5, 6, 7, 8]]);
    assert_eq!(bytes, vec![1, 2, 3, 4, 5, 6, 7, 8]);
    assert!(bevy_egui::flatten_rgba(&vec![]).is_empty());
}

#[test]
fn upload_bytes_have_alpha_divided_out() {
    let half_red = Color32 { r: 64, g: 0, b: 0, a: 128 };
    let opaque = Color32 { r: 10, g: 20, b: 30, a: 255 };
    let image = ColorImage::from_pixels([2, 1], vec![half_red, opaque]).unwrap();
    let bytes = bevy_egui::unmultiplied_bytes(&image);
    let first = egui::Color32::from_rgba_premultiplied(64, 0, 0, 128).to_srgba_unmultiplied();
    let second = egui::Color32::from_rgba_premultiplied(10, 20, 30, 255).to_srgba_unmultiplied();
    assert_eq!(bytes.len(), 8);
    assert_eq!(bytes[0..4], first);
    assert_eq!(bytes[4..8], second);
    assert_ne!(bytes[0], 64);
    assert_eq!(bytes[3], 128);
    assert_eq!(bytes[4..8], [10, 20, 30, 255]);
}
