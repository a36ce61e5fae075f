use gallery::config::{Config, DbConfig, ThumbnailConfig};
use gallery::error::GalleryError;
use gallery::indexer::{has_allowed_extension, is_allowed, IndexFile, IndexerActor};
use gallery::metadata::PhotoMetadata;
use gallery::models::{ChangeState, CreateJob, GetAlbumId, GetJobs, GetPhoto};
use gallery::store::DbExecutor;
use gallery::walker::{Directory, StartWalking, WalkerActor};

fn config() -> Config {
    Config {
        gallery_name: "Gallery".to_string(),
        storage_path: "/photos".to_string(),
        cache_path: "/cache".to_string(),
        allowed_extensions: vec!["jpg".to_string(), "png".to_string()],
        small_thumbnail: ThumbnailConfig { size: 200, square: true, extension: "small.jpeg".to_string() },
        medium_thumbnail: ThumbnailConfig { size: 800, square: false, extension: "medium.jpeg".to_string() },
        db: DbConfig { url: "gallery.db".to_string() },
    }
}

fn strings(parts: &[&str]) -> Vec<String> {
    parts.iter().map(|p| p.to_string()).collect()
}

/// The tree used by the walk tests:
/// /photos: a.jpg, notes.txt, trips/
/// /photos/trips: b.PNG, alps/
/// /photos/trips/alps: c.jpg
fn listing(path: &str) -> (Vec<String>, Vec<String>) {
    match path {
        "/photos" => (strings(&["/photos/a.jpg", "/photos/notes.txt"]), strings(&["/photos/trips"])),
        "/photos/trips" => (strings(&["/photos/trips/b.PNG"]), strings(&["/photos/trips/alps"])),
        "/photos/trips/alps" => (strings(&["/photos/trips/alps/c.jpg"]), Vec::new()),
        _ => panic!("no such directory"),
    }
}

/// Walks the tree, indexing every file that needs it; returns the paths of
/// the directories in the order entered and the number of files recorded.
fn walk(db: &mut DbExecutor, job_id: &str) -> (Vec<String>, usize) {
    let indexer = IndexerActor::new(config());
    let mut walker = WalkerActor::new(config(), StartWalking { job_id: job_id.to_string() });
    let mut dir = walker.start(db, "/photos".to_string()).unwrap();
    let mut entered = Vec::new();
    let mut recorded = 0;
    loop {
        entered.push(dir.path.clone());
        let (files, dirs) = listing(&dir.path);
        for task in walker.handle_listing(&dir, files, dirs) {
            if let Ok(Some(name)) = indexer.check_file(db, &task) {
                let hash = format!("hash-of-{}", task.path);
                if indexer.record_photo(db, task, name, hash, PhotoMetadata::new()).is_ok() {
                    recorded += 1;
                }
            }
        }
        match walker.next_directory(db).unwrap() {
            Some(d) => dir = d,
            None => break,
        }
    }
    (entered, recorded)
}

#[test]
fn walk_mirrors_directories_and_indexes_allowed_files() {
    let mut db = DbExecutor::new();
    let job = db.create_job(CreateJob { name: "index_gallery".to_string() }).unwrap();
    let (entered, recorded) = walk(&mut db, &job);
    assert_eq!(entered, vec!["/photos", "/photos/trips", "/photos/trips/alps"]);
    assert_eq!(recorded, 3);
    assert_eq!(db.album_count(), 3);
    assert_eq!(db.photo_count(), 3);
    assert_eq!(db.get_jobs(&GetJobs)[0].state, "finished");
    let root = db.get_root_album_id(&gallery::models::GetRootAlbumId).unwrap();
    let trips = db.get_album_id(&GetAlbumId { name: "trips".to_string(), parent_album_id: root.clone() }).unwrap();
    let alps = db.get_album_id(&GetAlbumId { name: "alps".to_string(), parent_album_id: trips.clone() }).unwrap();
    let c = db.get_photo(&GetPhoto { name: "c.jpg".to_string(), album_id: alps }).unwrap();
    assert_eq!(c.hash, "hash-of-/photos/trips/alps/c.jpg");
    let notes = db.get_photo(&GetPhoto { name: "notes.txt".to_string(), album_id: root });
    assert!(matches!(notes, Err(GalleryError::NotFound)));
}

#[test]
fn walking_twice_adds_nothing() {
    let mut db = DbExecutor::new();
    let job = db.create_job(CreateJob { name: "index_gallery".to_string() }).unwrap();
    walk(&mut db, &job);
    let (entered, recorded) = walk(&mut db, &job);
    assert_eq!(entered.len(), 3);
    assert_eq!(recorded, 0);
    assert_eq!(db.album_count(), 3);
    assert_eq!(db.photo_count(), 3);
}

#[test]
fn walk_of_an_unknown_job_fails() {
    let mut db = DbExecutor::new();
    let mut walker = WalkerActor::new(config(), StartWalking { job_id: "missing".to_string() });
    assert!(matches!(walker.start(&mut db, "/photos".to_string()), Err(GalleryError::NotFound)));
    assert_eq!(db.album_count(), 0);
}

#[test]
fn listing_queues_directories_in_order() {
    let mut db = DbExecutor::new();
    let job = db.create_job(CreateJob { name: "index_gallery".to_string() }).unwrap();
    let mut walker = WalkerActor::new(config(), StartWalking { job_id: job.clone() });
    let root = walker.start(&mut db, "/p".to_string()).unwrap();
    let tasks = walker.handle_listing(&root, strings(&["/p/1.jpg", "/p/2.jpg"]), strings(&["/p/x", "/p/y"]));
    let paths: Vec<&str> = tasks.iter().map(|t| t.path.as_str()).collect();
    assert_eq!(paths, vec!["/p/1.jpg", "/p/2.jpg"]);
    assert!(tasks.iter().all(|t| t.parent == root.album_id));
    let x = walker.next_directory(&mut db).unwrap().unwrap();
    assert_eq!(x.path, "/p/x");
    let y = walker.next_directory(&mut db).unwrap().unwrap();
    assert_eq!(y.path, "/p/y");
    assert_ne!(x.album_id, y.album_id);
    assert!(walker.next_directory(&mut db).unwrap().is_none());
    db.change_state(ChangeState { job_id: job, new_state: "created".to_string() }).unwrap();
}

#[test]
fn directory_without_a_name_aborts() {
    let mut db = DbExecutor::new();
    let job = db.create_job(CreateJob { name: "index_gallery".to_string() }).unwrap();
    let mut walker = WalkerActor::new(config(), StartWalking { job_id: job });
    let root = walker.start(&mut db, "/p".to_string()).unwrap();
    walker.handle_listing(&root, Vec::new(), strings(&["/p/.."]));
    assert!(matches!(walker.next_directory(&mut db), Err(GalleryError::InvalidFileName)));
}

#[test]
fn disallowed_extensions_are_skipped() {
    let db = DbExecutor::new();
    let indexer = IndexerActor::new(config());
    let task = IndexFile { path: "/photos/notes.txt".to_string(), parent: "root".to_string() };
    assert!(matches!(indexer.check_file(&db, &task), Err(GalleryError::InvalidFileName)));
    let hidden = IndexFile { path: "/photos/.jpg".to_string(), parent: "root".to_string() };
    assert!(matches!(indexer.check_file(&db, &hidden), Err(GalleryError::InvalidFileName)));
    let bare = IndexFile { path: "/photos/README".to_string(), parent: "root".to_string() };
    assert!(matches!(indexer.check_file(&db, &bare), Err(GalleryError::InvalidFileName)));
}

#[test]
fn disallowed_extensions_never_produce_a_photo() {
    let mut db = DbExecutor::new();
    let indexer = IndexerActor::new(config());
    let task = IndexFile { path: "/photos/notes.txt".to_string(), parent: "root".to_string() };
    let r = indexer.record_photo(&mut db, task, "notes.txt".to_string(), "h".to_string(), PhotoMetadata::new());
    assert!(matches!(r, Err(GalleryError::InvalidFileName)));
    assert_eq!(db.photo_count(), 0);
}

#[test]
fn extensions_compare_without_case() {
    let allowed = strings(&["jpg", "png"]);
    assert!(has_allowed_extension("IMG_0001.JPG", &allowed));
    assert!(has_allowed_extension("scan.Png", &allowed));
    assert!(!has_allowed_extension("movie.mov", &allowed));
    assert!(is_allowed(&"jpg".to_string(), &allowed));
    assert!(!is_allowed(&"JPG".to_string(), &allowed));
}

#[test]
fn indexed_files_are_not_redone() {
    let mut db = DbExecutor::new();
    let indexer = IndexerActor::new(config());
    let task = IndexFile { path: "/photos/a.jpg".to_string(), parent: "root".to_string() };
    assert_eq!(indexer.check_file(&db, &task).unwrap(), Some("a.jpg".to_string()));
    let task2 = IndexFile { path: "/photos/a.jpg".to_string(), parent: "root".to_string() };
    indexer.record_photo(&mut db, task2, "a.jpg".to_string(), "h".to_string(), PhotoMetadata::new()).unwrap();
    assert_eq!(indexer.check_file(&db, &task).unwrap(), None);
}

#[test]
fn recorded_camera_model_loses_its_quotes() {
    let mut db = DbExecutor::new();
    let indexer = IndexerActor::new(config());
    let mut meta = PhotoMetadata::new();
    meta.camera = Some("\"NIKON D750\"".to_string());
    meta.flash = Some("fired".to_string());
    let task = IndexFile { path: "/photos/a.jpg".to_string(), parent: "root".to_string() };
    indexer.record_photo(&mut db, task, "a.jpg".to_string(), "h".to_string(), meta).unwrap();
    let p = db.get_photo(&GetPhoto { name: "a.jpg".to_string(), album_id: "root".to_string() }).unwrap();
    assert_eq!(p.camera, Some("NIKON D750".to_string()));
    assert_eq!(p.flash, Some("fired".to_string()));
    assert_eq!(p.creation_date, None);
}

#[test]
fn directory_value_carries_path_and_album() {
    let d = Directory { path: "/p".to_string(), album_id: "id".to_string() };
    assert_eq!(d.path, "/p");
}
