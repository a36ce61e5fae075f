use gallery::config::ThumbnailConfig;
use gallery::hash::{content_hash, fnv1a_64};
use gallery::metadata::{tag_list, MetaTag, PhotoMetadata};
use gallery::thumbnail::{make_thumbnail, plan_thumbnail, Picture, ThumbnailPlan};

fn cfg(size: u32, square: bool) -> ThumbnailConfig {
    ThumbnailConfig { size, square, extension: "jpeg".to_string() }
}

fn picture(w: u32, h: u32) -> Picture {
    Picture::from_image(image::DynamicImage::new_rgb8(w, h))
}

#[test]
fn small_sources_are_never_upscaled() {
    let t = make_thumbnail(picture(50, 30), &cfg(100, true));
    assert_eq!((t.width(), t.height()), (50, 30));
    let t = make_thumbnail(picture(99, 99), &cfg(100, false));
    assert_eq!((t.width(), t.height()), (99, 99));
}

#[test]
fn square_thumbnails_are_exactly_the_target_size() {
    let t = make_thumbnail(picture(400, 300), &cfg(100, true));
    assert_eq!((t.width(), t.height()), (100, 100));
    let t = make_thumbnail(picture(120, 900), &cfg(100, true));
    assert_eq!((t.width(), t.height()), (100, 100));
    let t = make_thumbnail(picture(100, 40), &cfg(100, true));
    assert_eq!((t.width(), t.height()), (100, 100));
}

#[test]
fn fitted_thumbnails_keep_the_aspect_ratio() {
    let t = make_thumbnail(picture(400, 300), &cfg(100, false));
    assert_eq!((t.width(), t.height()), (100, 75));
    let t = make_thumbnail(picture(300, 600), &cfg(100, false));
    assert_eq!((t.width(), t.height()), (50, 100));
}

#[test]
fn thumbnail_plans() {
    assert_eq!(plan_thumbnail(10, 10, &cfg(100, true)), ThumbnailPlan::Original);
    assert_eq!(plan_thumbnail(100, 10, &cfg(100, true)), ThumbnailPlan::Fill);
    assert_eq!(plan_thumbnail(10, 100, &cfg(100, false)), ThumbnailPlan::Fit);
}

/// A little-endian TIFF whose first directory holds one Model tag, "Cam1".
fn tiff_with_model() -> Vec<u8> {
    let mut b = vec![0x49, 0x49, 0x2a, 0x00, 0x08, 0x00, 0x00, 0x00];
    b.extend_from_slice(&[0x01, 0x00]);
    b.extend_from_slice(&[0x10, 0x01, 0x02, 0x00, 0x05, 0x00, 0x00, 0x00, 0x1a, 0x00, 0x00, 0x00]);
    b.extend_from_slice(&[0x00, 0x00, 0x00, 0x00]);
    b.extend_from_slice(b"Cam1\0");
    b
}

#[test]
fn metadata_is_read_from_exif() {
    let m = PhotoMetadata::extract_exif(&tiff_with_model());
    assert_eq!(m.camera, Some("\"Cam1\"".to_string()));
    assert_eq!(m.creation_date, None);
    assert_eq!(m.flash, None);
}

#[test]
fn data_without_exif_gives_no_metadata() {
    let m = PhotoMetadata::extract_exif(&b"not an image at all".to_vec());
    assert_eq!(m.camera, None);
    assert_eq!(m.get_named_metadata(), Vec::<(String, String)>::new());
}

#[test]
fn named_metadata_in_display_order() {
    let mut m = PhotoMetadata::new();
    m.set_tag(MetaTag::Flash, Some("no flash".to_string()));
    m.set_tag(MetaTag::DateTimeOriginal, Some("2019-01-01".to_string()));
    m.set_tag(MetaTag::FocalLengthIn35mmFilm, Some("50 mm".to_string()));
    assert_eq!(
        m.get_named_metadata(),
        vec![
            ("Date".to_string(), "2019-01-01".to_string()),
            ("Focal length in 35mm".to_string(), "50 mm".to_string()),
            ("Flash".to_string(), "no flash".to_string()),
        ]
    );
    assert_eq!(tag_list().len(), 7);
    assert_eq!(tag_list()[1], MetaTag::Model);
}

#[test]
fn content_hash_is_fnv1a_in_hex() {
    assert_eq!(content_hash(&Vec::new()), "cbf29ce484222325");
    assert_eq!(content_hash(&b"a".to_vec()), "af63dc4c8601ec8c");
    assert_eq!(fnv1a_64(b"foobar"), 0x85944171f73967e8);
}

#[test]
fn empty_data_gives_no_metadata() {
    let m = PhotoMetadata::extract_exif(&Vec::new());
    assert_eq!(m.creation_date, None);
    assert_eq!(m.camera, None);
    assert_eq!(m.exposure_time, None);
    assert_eq!(m.aperture, None);
    assert_eq!(m.focal_length, None);
    assert_eq!(m.focal_length_in_35mm, None);
    assert_eq!(m.flash, None);
}

#[test]
fn fitted_thumbnail_rounds_the_shorter_side() {
    let t = make_thumbnail(picture(300, 200), &cfg(100, false));
    assert_eq!((t.width(), t.height()), (100, 67));
    let t = make_thumbnail(picture(1000, 1), &cfg(100, false));
    assert_eq!((t.width(), t.height()), (100, 1));
}
