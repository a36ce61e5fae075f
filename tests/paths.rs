use gallery::config::{Config, DbConfig, ThumbnailConfig, ThumbnailSize};
use gallery::error::GalleryError;
use gallery::models::{AlbumThumbnail, PhotoThumbnail};
use gallery::paths::{file_extension, get_file_name_string, join_path, split_path};
use gallery::resolver::get_album_url;
use gallery::text::{str_lt, trim_one_char};

fn config() -> Config {
    Config {
        gallery_name: "Gallery".to_string(),
        storage_path: "/photos".to_string(),
        cache_path: "/var/cache/gallery".to_string(),
        allowed_extensions: vec!["jpg".to_string(), "jpeg".to_string()],
        small_thumbnail: ThumbnailConfig { size: 200, square: true, extension: "small.jpeg".to_string() },
        medium_thumbnail: ThumbnailConfig { size: 800, square: false, extension: "medium.jpeg".to_string() },
        db: DbConfig { url: "gallery.db".to_string() },
    }
}

#[test]
fn trim_strips_one_character_at_each_end() {
    assert_eq!(trim_one_char(&"\"Canon EOS\"".to_string()), "Canon EOS");
    assert_eq!(trim_one_char(&"ab".to_string()), "");
    assert_eq!(trim_one_char(&"a".to_string()), "a");
    assert_eq!(trim_one_char(&"".to_string()), "");
    assert_eq!(trim_one_char(&"«é»".to_string()), "é");
}

#[test]
fn names_compare_lexicographically() {
    assert!(str_lt("a", "b"));
    assert!(str_lt("ab", "abc"));
    assert!(!str_lt("abc", "ab"));
    assert!(!str_lt("same", "same"));
    assert!(str_lt("B", "a"));
    assert!(str_lt("", "a"));
}

#[test]
fn paths_split_into_segments() {
    assert_eq!(split_path("A/B/photo.jpg"), vec!["A", "B", "photo.jpg"]);
    assert_eq!(split_path("/A//B/"), vec!["A", "B"]);
    assert_eq!(split_path("./A/./B"), vec!["A", "B"]);
    assert_eq!(split_path("A/../B"), vec!["A", "..", "B"]);
    assert!(split_path("").is_empty());
    assert!(split_path("/").is_empty());
}

#[test]
fn file_names_of_paths() {
    assert_eq!(get_file_name_string("/photos/trip/img.JPG").unwrap(), "img.JPG");
    assert_eq!(get_file_name_string("/photos/trip/").unwrap(), "trip");
    assert!(matches!(get_file_name_string("/"), Err(GalleryError::InvalidFileName)));
    assert!(matches!(get_file_name_string("/photos/.."), Err(GalleryError::InvalidFileName)));
}

#[test]
fn extensions_of_file_names() {
    assert_eq!(file_extension("img.JPG"), Some("JPG".to_string()));
    assert_eq!(file_extension("archive.tar.gz"), Some("gz".to_string()));
    assert_eq!(file_extension("trailing."), Some("".to_string()));
    assert_eq!(file_extension(".hidden"), None);
    assert_eq!(file_extension("README"), None);
}

#[test]
fn joining_paths() {
    assert_eq!(join_path("/cache", "ab12"), "/cache/ab12");
    assert_eq!(join_path("/cache/", "ab12"), "/cache/ab12");
    assert_eq!(join_path("", "ab12"), "ab12");
    assert_eq!(join_path("/cache", "/abs"), "/abs");
}

#[test]
fn thumbnail_cache_paths() {
    let config = config();
    let small = ThumbnailSize::Small.get_thumbnail_config(&config);
    let medium = ThumbnailSize::Medium.get_thumbnail_config(&config);
    assert_eq!(small.size, 200);
    assert_eq!(medium.size, 800);
    let hash = "0123abcd".to_string();
    assert_eq!(PhotoThumbnail::get_image_path(&hash, small, &config), "/var/cache/gallery/0123abcd.small.jpeg");
    assert_eq!(PhotoThumbnail::get_image_path(&hash, medium, &config), "/var/cache/gallery/0123abcd.medium.jpeg");
}

#[test]
fn thumbnail_sizes_by_name() {
    assert_eq!(ThumbnailSize::from_name("small"), Some(ThumbnailSize::Small));
    assert_eq!(ThumbnailSize::from_name("medium"), Some(ThumbnailSize::Medium));
    assert_eq!(ThumbnailSize::from_name("large"), None);
    assert_eq!(ThumbnailSize::all(), vec![ThumbnailSize::Small, ThumbnailSize::Medium]);
}

#[test]
fn album_urls() {
    assert_eq!(get_album_url(&Vec::new()), "");
    assert_eq!(get_album_url(&vec!["A".to_string(), "B".to_string()]), "/A/B");
}

#[test]
fn album_thumbnail_from_path() {
    assert_eq!(AlbumThumbnail::from_path("/photos/Trips").unwrap().name, "Trips");
    assert_eq!(AlbumThumbnail::new("X".to_string()).name, "X");
    assert!(matches!(AlbumThumbnail::from_path(""), Err(GalleryError::InvalidFileName)));
}
