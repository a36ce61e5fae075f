use gallery::error::{GalleryError, StoreFault};
use gallery::models::{
    ChangeState, CreateAlbum, CreateJob, CreatePhoto, GetAdjacentPhotos, GetAlbum, GetAlbumId, GetAlbumsThumbnail, GetJobs,
    GetPhoto, GetPhotoId, GetPhotosThumbnail, GetRootAlbumId, Photo,
};
use gallery::models::JobsTemplate;
use gallery::store::DbExecutor;

fn photo(name: &str, album_id: &str) -> Photo {
    Photo {
        name: name.to_string(),
        album_id: album_id.to_string(),
        hash: format!("hash-{}", name),
        ..Default::default()
    }
}

fn album(db: &mut DbExecutor, name: &str, parent: Option<&str>) -> String {
    db.create_album(CreateAlbum { name: name.to_string(), parent_album_id: parent.map(|p| p.to_string()) }).unwrap()
}

fn segments(parts: &[&str]) -> Vec<String> {
    parts.iter().map(|p| p.to_string()).collect()
}

#[test]
fn adjacent_photos_of_middle_sibling() {
    let mut db = DbExecutor::new();
    let root = album(&mut db, "Gallery", None);
    for name in ["c", "a", "b"] {
        db.create_photo(CreatePhoto { photo: photo(name, &root) }).unwrap();
    }
    let (prev, next) = db.get_adjacent_photos(&GetAdjacentPhotos { name: "b".to_string(), album_id: root.clone() });
    assert_eq!(prev, Some("a".to_string()));
    assert_eq!(next, Some("c".to_string()));
}

#[test]
fn adjacent_photos_at_the_ends_and_across_albums() {
    let mut db = DbExecutor::new();
    let root = album(&mut db, "Gallery", None);
    let other = album(&mut db, "Other", Some(&root));
    for name in ["m", "d", "x"] {
        db.create_photo(CreatePhoto { photo: photo(name, &root) }).unwrap();
    }
    db.create_photo(CreatePhoto { photo: photo("e", &other) }).unwrap();
    let (prev, next) = db.get_adjacent_photos(&GetAdjacentPhotos { name: "d".to_string(), album_id: root.clone() });
    assert_eq!(prev, None);
    assert_eq!(next, Some("m".to_string()));
    let (prev, next) = db.get_adjacent_photos(&GetAdjacentPhotos { name: "x".to_string(), album_id: root.clone() });
    assert_eq!(prev, Some("m".to_string()));
    assert_eq!(next, None);
}

#[test]
fn sibling_albums_cannot_share_a_name() {
    let mut db = DbExecutor::new();
    let root = album(&mut db, "Gallery", None);
    album(&mut db, "Trips", Some(&root));
    let again = db.create_album(CreateAlbum { name: "Trips".to_string(), parent_album_id: Some(root.clone()) });
    assert!(matches!(again, Err(GalleryError::DbError(StoreFault::DuplicateName))));
    assert_eq!(db.album_count(), 2);
}

#[test]
fn a_second_root_is_refused() {
    let mut db = DbExecutor::new();
    album(&mut db, "Gallery", None);
    let again = db.create_album(CreateAlbum { name: "Another".to_string(), parent_album_id: None });
    assert!(matches!(again, Err(GalleryError::DbError(StoreFault::SecondRoot))));
}

#[test]
fn a_taken_identifier_is_refused() {
    let mut db = DbExecutor::new();
    let root = db.insert_album("id-1".to_string(), CreateAlbum { name: "Gallery".to_string(), parent_album_id: None });
    assert_eq!(root.unwrap(), "id-1");
    let child = db.insert_album(
        "id-1".to_string(),
        CreateAlbum { name: "Child".to_string(), parent_album_id: Some("id-1".to_string()) },
    );
    assert!(matches!(child, Err(GalleryError::DbError(StoreFault::DuplicateId))));
}

#[test]
fn album_lookups() {
    let mut db = DbExecutor::new();
    assert_eq!(db.get_root_album_id(&GetRootAlbumId), None);
    let root = album(&mut db, "Gallery", None);
    let trips = album(&mut db, "Trips", Some(&root));
    assert_eq!(db.get_root_album_id(&GetRootAlbumId), Some(root.clone()));
    assert_eq!(db.get_album_id(&GetAlbumId { name: "Trips".to_string(), parent_album_id: root.clone() }), Some(trips));
    assert_eq!(db.get_album_id(&GetAlbumId { name: "Nope".to_string(), parent_album_id: root.clone() }), None);
}

#[test]
fn new_identifiers_are_distinct() {
    let mut db = DbExecutor::new();
    let root = album(&mut db, "Gallery", None);
    let a = album(&mut db, "A", Some(&root));
    assert_ne!(root, a);
    assert_eq!(root.len(), 36);
}

#[test]
fn photo_lookups_and_duplicates() {
    let mut db = DbExecutor::new();
    let root = album(&mut db, "Gallery", None);
    let id = db.create_photo(CreatePhoto { photo: photo("p.jpg", &root) }).unwrap();
    let again = db.create_photo(CreatePhoto { photo: photo("p.jpg", &root) });
    assert!(matches!(again, Err(GalleryError::DbError(StoreFault::DuplicateName))));
    assert_eq!(db.photo_count(), 1);
    assert_eq!(db.get_photo_id(&GetPhotoId { name: "p.jpg".to_string(), album_id: root.clone() }), Some(id.clone()));
    let found = db.get_photo(&GetPhoto { name: "p.jpg".to_string(), album_id: root.clone() }).unwrap();
    assert_eq!(found.id, id);
    assert_eq!(found.hash, "hash-p.jpg");
    let missing = db.get_photo(&GetPhoto { name: "q.jpg".to_string(), album_id: root.clone() });
    assert!(matches!(missing, Err(GalleryError::NotFound)));
}

#[test]
fn resolve_path_to_album_with_breadcrumb() {
    let mut db = DbExecutor::new();
    let root = album(&mut db, "Gallery", None);
    let a = album(&mut db, "A", Some(&root));
    let b = album(&mut db, "B", Some(&a));
    let res = db.get_album(&GetAlbum { path: segments(&["A", "B"]) }).unwrap();
    assert_eq!(res.album.id, b);
    assert_eq!(res.album.name, "B");
    assert_eq!(
        res.breadcrumb,
        vec![("/".to_string(), "Gallery".to_string()), ("/A".to_string(), "A".to_string())]
    );
    let top = db.get_album(&GetAlbum { path: Vec::new() }).unwrap();
    assert_eq!(top.album.id, root);
    assert!(top.breadcrumb.is_empty());
}

#[test]
fn resolve_path_reports_missing_segments() {
    let mut db = DbExecutor::new();
    let root = album(&mut db, "Gallery", None);
    let a = album(&mut db, "A", Some(&root));
    match db.get_album(&GetAlbum { path: segments(&["A", "X"]) }) {
        Err(GalleryError::AlbumNotFound { missing_segments, last_album, current_breadcrumb }) => {
            assert_eq!(missing_segments, 1);
            assert_eq!(last_album, a);
            assert_eq!(
                current_breadcrumb,
                vec![("/".to_string(), "Gallery".to_string()), ("/A".to_string(), "A".to_string())]
            );
        },
        _ => panic!("expected AlbumNotFound"),
    }
    match db.get_album(&GetAlbum { path: segments(&["X", "Y", "Z"]) }) {
        Err(GalleryError::AlbumNotFound { missing_segments, last_album, current_breadcrumb }) => {
            assert_eq!(missing_segments, 3);
            assert_eq!(last_album, root);
            assert_eq!(current_breadcrumb.len(), 1);
        },
        _ => panic!("expected AlbumNotFound"),
    }
}

#[test]
fn resolve_path_without_root_is_not_found() {
    let db = DbExecutor::new();
    assert!(matches!(db.get_album(&GetAlbum { path: segments(&["A"]) }), Err(GalleryError::NotFound)));
}

#[test]
fn listings_are_in_name_order() {
    let mut db = DbExecutor::new();
    let root = album(&mut db, "Gallery", None);
    for name in ["zoo", "alps", "city"] {
        album(&mut db, name, Some(&root));
    }
    let other = album(&mut db, "alps2", Some(&root));
    album(&mut db, "inner", Some(&other));
    for name in ["3.jpg", "1.jpg", "2.jpg"] {
        let mut p = photo(name, &root);
        p.creation_date = Some(format!("date of {}", name));
        db.create_photo(CreatePhoto { photo: p }).unwrap();
    }
    let albums: Vec<String> = db
        .get_albums_thumbnail(&GetAlbumsThumbnail { parent_album_id: root.clone() })
        .into_iter()
        .map(|a| a.name)
        .collect();
    assert_eq!(albums, vec!["alps", "alps2", "city", "zoo"]);
    let photos = db.get_photos_thumbnail(&GetPhotosThumbnail { parent_album_id: root.clone() });
    let names: Vec<&str> = photos.iter().map(|p| p.name.as_str()).collect();
    assert_eq!(names, vec!["1.jpg", "2.jpg", "3.jpg"]);
    assert_eq!(photos[0].creation_date, Some("date of 1.jpg".to_string()));
}

#[test]
fn jobs_are_created_and_change_state() {
    let mut db = DbExecutor::new();
    let id = db.create_job(CreateJob { name: "index_gallery".to_string() }).unwrap();
    let jobs = db.get_jobs(&GetJobs);
    assert_eq!(jobs.len(), 1);
    assert_eq!(jobs[0].state, "created");
    assert_eq!(jobs[0].name, "index_gallery");
    db.change_state(ChangeState { job_id: id.clone(), new_state: "running".to_string() }).unwrap();
    assert_eq!(db.get_jobs(&GetJobs)[0].state, "running");
    let view = JobsTemplate::get(&db);
    assert_eq!(view.jobs.len(), 1);
    assert_eq!(view.jobs[0].id, id);
    let unknown = db.change_state(ChangeState { job_id: "nope".to_string(), new_state: "finished".to_string() });
    assert!(matches!(unknown, Err(GalleryError::NotFound)));
}

#[test]
fn job_requests_are_validated() {
    assert!(CreateJob { name: "index_gallery".to_string() }.validate().is_ok());
    let bad = CreateJob { name: "reboot".to_string() }.validate();
    assert!(matches!(bad, Err(GalleryError::InvalidForm(_))));
}

#[test]
fn error_status_codes() {
    assert_eq!(GalleryError::NotFound.status_code(), 404);
    let partial = GalleryError::AlbumNotFound { missing_segments: 2, last_album: "x".to_string(), current_breadcrumb: Vec::new() };
    assert_eq!(partial.status_code(), 404);
    assert_eq!(GalleryError::InvalidForm("bad".to_string()).status_code(), 400);
    assert_eq!(GalleryError::InvalidFileName.status_code(), 500);
}
