//! The persisted records (albums, photos, jobs), the requests that the
//! metadata store answers, and the mathematical views of both.
use vstd::prelude::*;
use vstd::string::*;
use crate::error::GalleryError;
use crate::paths::{file_name_of, get_file_name_string};

verus! {

/// The view of an optional string.
pub open spec fn opt_view(o: Option<String>) -> Option<Seq<char>> {
    match o {
        Some(s) => Some(s@),
        None => None,
    }
}

pub fn clone_opt(o: &Option<String>) -> (r: Option<String>)
    ensures
        opt_view(r) == opt_view(*o),
{
    match o {
        Some(s) => Some(s.clone()),
        None => None,
    }
}

/// One album: a node of the tree that mirrors the source directories.
#[derive(Debug)]
pub struct Album {
    pub id: String,
    pub name: String,
    pub parent_album_id: Option<String>,
}

pub struct AlbumView {
    pub id: Seq<char>,
    pub name: Seq<char>,
    pub parent: Option<Seq<char>>,
}

impl View for Album {
    type V = AlbumView;

    open spec fn view(&self) -> AlbumView {
        AlbumView { id: self.id@, name: self.name@, parent: opt_view(self.parent_album_id) }
    }
}

impl Album {
    pub fn duplicate(&self) -> (r: Album)
        ensures
            r@ == self@,
    {
        Album {
            id: self.id.clone(),
            name: self.name.clone(),
            parent_album_id: clone_opt(&self.parent_album_id),
        }
    }
}

/// One photo: an indexed source file with its content hash and the
/// metadata extracted from it.
#[derive(Debug, Default)]
pub struct Photo {
    pub id: String,
    pub name: String,
    pub album_id: String,
    pub hash: String,
    pub creation_date: Option<String>,
    pub camera: Option<String>,
    pub exposure_time: Option<String>,
    pub aperture: Option<String>,
    pub focal_length: Option<String>,
    pub focal_length_in_35mm: Option<String>,
    pub flash: Option<String>,
}

pub struct PhotoView {
    pub id: Seq<char>,
    pub name: Seq<char>,
    pub album_id: Seq<char>,
    pub hash: Seq<char>,
    pub creation_date: Option<Seq<char>>,
    pub camera: Option<Seq<char>>,
    pub exposure_time: Option<Seq<char>>,
    pub aperture: Option<Seq<char>>,
    pub focal_length: Option<Seq<char>>,
    pub focal_length_in_35mm: Option<Seq<char>>,
    pub flash: Option<Seq<char>>,
}

impl View for Photo {
    type V = PhotoView;

    open spec fn view(&self) -> PhotoView {
        PhotoView {
            id: self.id@,
            name: self.name@,
            album_id: self.album_id@,
            hash: self.hash@,
            creation_date: opt_view(self.creation_date),
            camera: opt_view(self.camera),
            exposure_time: opt_view(self.exposure_time),
            aperture: opt_view(self.aperture),
            focal_length: opt_view(self.focal_length),
            focal_length_in_35mm: opt_view(self.focal_length_in_35mm),
            flash: opt_view(self.flash),
        }
    }
}

impl Photo {
    pub fn duplicate(&self) -> (r: Photo)
        ensures
            r@ == self@,
    {
        Photo {
            id: self.id.clone(),
            name: self.name.clone(),
            album_id: self.album_id.clone(),
            hash: self.hash.clone(),
            creation_date: clone_opt(&self.creation_date),
            camera: clone_opt(&self.camera),
            exposure_time: clone_opt(&self.exposure_time),
            aperture: clone_opt(&self.aperture),
            focal_length: clone_opt(&self.focal_length),
            focal_length_in_35mm: clone_opt(&self.focal_length_in_35mm),
            flash: clone_opt(&self.flash),
        }
    }

    /// The same record under another identifier.
    pub open spec fn with_id(self, id: Seq<char>) -> PhotoView {
        PhotoView { id: id, ..self@ }
    }
}

/// The name of a job whose run indexes the gallery.
pub const JOB_INDEX_GALLERY: &'static str = "index_gallery";

pub const STATE_CREATED: &'static str = "created";

pub const STATE_RUNNING: &'static str = "running";

pub const STATE_FINISHED: &'static str = "finished";

/// One indexing run and its state.
#[derive(Debug)]
pub struct Job {
    pub id: String,
    pub name: String,
    pub state: String,
}

pub struct JobView {
    pub id: Seq<char>,
    pub name: Seq<char>,
    pub state: Seq<char>,
}

impl View for Job {
    type V = JobView;

    open spec fn view(&self) -> JobView {
        JobView { id: self.id@, name: self.name@, state: self.state@ }
    }
}

/// The jobs to list on the administration page.
pub struct JobsTemplate {
    pub jobs: Vec<Job>,
}

/// A child album as listed in its parent's view.
#[derive(Debug)]
pub struct AlbumThumbnail {
    pub name: String,
}

impl AlbumThumbnail {
    pub fn new(name: String) -> (r: AlbumThumbnail)
        ensures
            r.name@ == name@,
    {
        AlbumThumbnail { name }
    }

    /// The entry of the directory at `path`, named after its file name;
    /// `InvalidFileName` when the path has none.
    pub fn from_path(path: &str) -> (r: Result<AlbumThumbnail, GalleryError>)
        ensures
            match file_name_of(path@) {
                Some(n) => r is Ok && r->Ok_0.name@ == n,
                None => r is Err && r->Err_0 is InvalidFileName,
            },
    {
        match get_file_name_string(path) {
            Ok(name) => Ok(AlbumThumbnail::new(name)),
            Err(e) => Err(e),
        }
    }
}

/// A photo as listed in its album's view.
#[derive(Debug)]
pub struct PhotoThumbnail {
    pub name: String,
    pub creation_date: Option<String>,
}

/// The album that a path resolves to, with the breadcrumb of its ancestors.
pub struct AlbumResult {
    pub album: Album,
    pub breadcrumb: Vec<(String, String)>,
}

pub struct CreateAlbum {
    pub name: String,
    pub parent_album_id: Option<String>,
}

/// Resolve a path, given as its segments, onto an album.
pub struct GetAlbum {
    pub path: Vec<String>,
}

pub struct GetAlbumId {
    pub name: String,
    pub parent_album_id: String,
}

pub struct GetRootAlbumId;

pub struct CreatePhoto {
    pub photo: Photo,
}

pub struct GetPhoto {
    pub name: String,
    pub album_id: String,
}

pub struct GetPhotoId {
    pub name: String,
    pub album_id: String,
}

pub struct GetAdjacentPhotos {
    pub name: String,
    pub album_id: String,
}

pub struct GetAlbumsThumbnail {
    pub parent_album_id: String,
}

pub struct GetPhotosThumbnail {
    pub parent_album_id: String,
}

pub struct CreateJob {
    pub name: String,
}

impl CreateJob {
    /// Accepts a job request only for a job that the gallery knows how to
    /// run; any other name is an invalid form.
    pub fn validate(self) -> (r: Result<CreateJob, GalleryError>)
        ensures
            self.name@ == JOB_INDEX_GALLERY@ ==> r is Ok && r->Ok_0.name@ == self.name@,
            self.name@ != JOB_INDEX_GALLERY@ ==> r is Err && r->Err_0 is InvalidForm,
    {
        let known = String::from_str(JOB_INDEX_GALLERY);
        if self.name == known {
            Ok(self)
        } else {
            Err(GalleryError::InvalidForm(String::from_str("\"name\" field value is invalid.")))
        }
    }
}

pub struct ChangeState {
    pub job_id: String,
    pub new_state: String,
}

pub struct GetJobs;

} // verus!
