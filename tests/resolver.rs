use gallery::error::GalleryError;
use gallery::models::{CreateAlbum, CreatePhoto, Photo};
use gallery::config::{Config, DbConfig, ThumbnailConfig};
use gallery::resolver::{gallery_route, thumbnail_route, AlbumTemplate, GalleryView, PhotoTemplate};
use gallery::store::DbExecutor;

struct Fixture {
    db: DbExecutor,
    root: String,
    b: String,
}

fn fixture() -> Fixture {
    let mut db = DbExecutor::new();
    let root = db.create_album(CreateAlbum { name: "Gallery".to_string(), parent_album_id: None }).unwrap();
    let a = db.create_album(CreateAlbum { name: "A".to_string(), parent_album_id: Some(root.clone()) }).unwrap();
    let b = db.create_album(CreateAlbum { name: "B".to_string(), parent_album_id: Some(a.clone()) }).unwrap();
    for name in ["before.jpg", "photo.jpg", "z.jpg"] {
        let photo = Photo {
            name: name.to_string(),
            album_id: b.clone(),
            hash: format!("h{}", name.len()),
            camera: Some("Cam".to_string()),
            ..Default::default()
        };
        db.create_photo(CreatePhoto { photo }).unwrap();
    }
    let top = Photo { name: "top.jpg".to_string(), album_id: root.clone(), ..Default::default() };
    db.create_photo(CreatePhoto { photo: top }).unwrap();
    Fixture { db, root, b }
}

#[test]
fn photo_path_resolves_to_photo_view() {
    let f = fixture();
    match gallery_route("A/B/photo.jpg", &f.db) {
        Ok(GalleryView::Photo(t)) => {
            assert_eq!(t.name, "photo.jpg");
            assert_eq!(t.photo.album_id, f.b);
            assert_eq!(t.photo.camera, Some("Cam".to_string()));
            assert_eq!(t.previous_photo, Some("before.jpg".to_string()));
            assert_eq!(t.next_photo, Some("z.jpg".to_string()));
            assert_eq!(t.album_path, "/A/B");
            assert_eq!(
                t.breadcrumb,
                vec![
                    ("/".to_string(), "Gallery".to_string()),
                    ("/A".to_string(), "A".to_string()),
                    ("/A/B".to_string(), "B".to_string()),
                ]
            );
        },
        _ => panic!("expected the photo view"),
    }
}

#[test]
fn unknown_segment_is_not_found() {
    let f = fixture();
    assert!(matches!(gallery_route("A/X", &f.db), Err(GalleryError::NotFound)));
    assert!(matches!(gallery_route("X/Y/photo.jpg", &f.db), Err(GalleryError::NotFound)));
}

#[test]
fn album_path_resolves_to_album_view() {
    let f = fixture();
    match gallery_route("A/B", &f.db) {
        Ok(GalleryView::Album(t)) => {
            assert_eq!(t.name, "B");
            assert_eq!(t.album_path, "/A/B");
            assert!(t.albums.is_empty());
            let names: Vec<&str> = t.photos.iter().map(|p| p.name.as_str()).collect();
            assert_eq!(names, vec!["before.jpg", "photo.jpg", "z.jpg"]);
            assert_eq!(t.breadcrumb.len(), 2);
        },
        _ => panic!("expected the album view"),
    }
    match gallery_route("", &f.db) {
        Ok(GalleryView::Album(t)) => {
            assert_eq!(t.name, "Gallery");
            assert_eq!(t.album_path, "");
            assert_eq!(t.albums.len(), 1);
            assert_eq!(t.albums[0].name, "A");
            assert_eq!(t.photos.len(), 1);
        },
        _ => panic!("expected the root album view"),
    }
}

#[test]
fn photo_in_root_album() {
    let f = fixture();
    match gallery_route("top.jpg", &f.db) {
        Ok(GalleryView::Photo(t)) => {
            assert_eq!(t.photo.album_id, f.root);
            assert_eq!(t.previous_photo, None);
            assert_eq!(t.next_photo, None);
            assert_eq!(t.album_path, "/");
        },
        _ => panic!("expected the photo view"),
    }
}

#[test]
fn empty_gallery_is_not_found() {
    let db = DbExecutor::new();
    assert!(matches!(gallery_route("A", &db), Err(GalleryError::NotFound)));
    assert!(matches!(AlbumTemplate::get("", &db), Err(GalleryError::NotFound)));
}

#[test]
fn photo_template_for_missing_photo() {
    let f = fixture();
    let crumbs = vec![("/".to_string(), "Gallery".to_string())];
    let r = PhotoTemplate::get("nope.jpg".to_string(), f.root.clone(), crumbs, &f.db);
    assert!(matches!(r, Err(GalleryError::NotFound)));
}

fn config() -> Config {
    Config {
        gallery_name: "Gallery".to_string(),
        storage_path: "/photos".to_string(),
        cache_path: "/cache".to_string(),
        allowed_extensions: vec!["jpg".to_string()],
        small_thumbnail: ThumbnailConfig { size: 200, square: true, extension: "small.jpeg".to_string() },
        medium_thumbnail: ThumbnailConfig { size: 800, square: false, extension: "medium.jpeg".to_string() },
        db: DbConfig { url: "gallery.db".to_string() },
    }
}

#[test]
fn thumbnail_route_finds_the_cache_file() {
    let f = fixture();
    let c = config();
    assert_eq!(thumbnail_route("A/B/photo.jpg", "small", &f.db, &c).unwrap(), "/cache/h9.small.jpeg");
    assert_eq!(thumbnail_route("A/B/z.jpg", "medium", &f.db, &c).unwrap(), "/cache/h5.medium.jpeg");
    assert!(matches!(thumbnail_route("A/B/photo.jpg", "huge", &f.db, &c), Err(GalleryError::NotFound)));
    assert!(matches!(thumbnail_route("A/B/none.jpg", "small", &f.db, &c), Err(GalleryError::NotFound)));
    assert!(matches!(thumbnail_route("A/X/photo.jpg", "small", &f.db, &c), Err(GalleryError::AlbumNotFound { .. })));
    assert!(matches!(thumbnail_route("", "small", &f.db, &c), Err(GalleryError::InvalidFileName)));
}
