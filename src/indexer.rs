//! The per-file unit of indexing work. A file is checked (allowed
//! extension, not yet indexed) before any expensive work; the caller then
//! hashes it, writes its thumbnails and reads its metadata, and hands the
//! results back to be recorded.
use vstd::prelude::*;
use crate::config::Config;
use crate::error::GalleryError;
use crate::laws::photo_after_record;
use crate::metadata::PhotoMetadata;
use crate::models::{opt_view, CreatePhoto, GetPhotoId, Photo, PhotoView};
use crate::paths::{extension_of, file_extension, file_name_of, get_file_name_string};
use crate::store::{is_listed, photo_index, DbExecutor};
use crate::text::trim_one_char;

verus! {

/// What `str::to_lowercase` makes of a string.
pub uninterp spec fn lowercase_of(s: Seq<char>) -> Seq<char>;

/// Relies on `str::to_lowercase`: the lower-case form of `s`, which depends
/// on its characters alone.
#[verifier::external_body]
fn lowercase(s: &str) -> (r: String)
    ensures
        r@ == lowercase_of(s@),
{
    s.to_lowercase()
}

/// The file `name` has an extension whose lower-case form is allowed.
pub open spec fn extension_allowed(name: Seq<char>, allowed: Seq<String>) -> bool {
    match extension_of(name) {
        Some(e) => is_listed(allowed, lowercase_of(e)),
        None => false,
    }
}

/// Whether the lower-case extension `lowered` is one of `allowed`.
pub fn is_allowed(lowered: &String, allowed: &Vec<String>) -> (r: bool)
    ensures
        r == is_listed(allowed@, lowered@),
{
    let mut i: usize = 0;
    while i < allowed.len()
        invariant
            i <= allowed@.len(),
            forall|k: int| 0 <= k < i ==> (#[trigger] allowed@[k])@ != lowered@,
        decreases allowed@.len() - i,
    {
        if allowed[i] == *lowered {
            return true;
        }
        i = i + 1;
    }
    false
}

/// Whether the file `name` has an allowed extension, compared without
/// regard to case.
pub fn has_allowed_extension(name: &str, allowed: &Vec<String>) -> (r: bool)
    ensures
        r == extension_allowed(name@, allowed@),
{
    match file_extension(name) {
        Some(ext) => {
            let lowered = lowercase(ext.as_str());
            is_allowed(&lowered, allowed)
        },
        None => false,
    }
}

/// A file to index, and the album it belongs to.
pub struct IndexFile {
    pub path: String,
    pub parent: String,
}

/// The photo record made from an indexed file: its name, album and content
/// hash, the metadata as read, with the camera model stripped of one
/// character at each end.
pub open spec fn record_of(name: Seq<char>, album: Seq<char>, hash: Seq<char>, m: PhotoMetadata) -> PhotoView {
    PhotoView {
        id: Seq::empty(),
        name: name,
        album_id: album,
        hash: hash,
        creation_date: opt_view(m.creation_date),
        camera: match m.camera {
            Some(c) => Some(if c@.len() < 2 { c@ } else { c@.subrange(1, c@.len() - 1) }),
            None => None,
        },
        exposure_time: opt_view(m.exposure_time),
        aperture: opt_view(m.aperture),
        focal_length: opt_view(m.focal_length),
        focal_length_in_35mm: opt_view(m.focal_length_in_35mm),
        flash: opt_view(m.flash),
    }
}

/// The indexing worker, holding the configuration it checks files against.
pub struct IndexerActor {
    pub config: Config,
}

impl IndexerActor {
    pub fn new(config: Config) -> (r: IndexerActor)
        ensures
            r.config == config,
    {
        IndexerActor { config }
    }

    /// Decides whether `msg.path` needs indexing. Fails with
    /// `InvalidFileName` when the path has no file name or its extension is
    /// not allowed; gives `None` when the album already holds a photo of
    /// that name, and the file name otherwise.
    pub fn check_file(&self, store: &DbExecutor, msg: &IndexFile) -> (r: Result<Option<String>, GalleryError>)
        requires
            store.wf(),
        ensures
            match file_name_of(msg.path@) {
                None => r is Err && r->Err_0 is InvalidFileName,
                Some(n) => if !extension_allowed(n, self.config.allowed_extensions@) {
                    r is Err && r->Err_0 is InvalidFileName
                } else if photo_index(store.photos(), msg.parent@, n) is Some {
                    r is Ok && r->Ok_0 is None
                } else {
                    r is Ok && r->Ok_0 is Some && r->Ok_0->Some_0@ == n
                },
            },
    {
        let name = match get_file_name_string(msg.path.as_str()) {
            Ok(n) => n,
            Err(e) => return Err(e),
        };
        if !has_allowed_extension(name.as_str(), &self.config.allowed_extensions) {
            return Err(GalleryError::InvalidFileName);
        }
        let existing = store.get_photo_id(&GetPhotoId { name: name.clone(), album_id: msg.parent.clone() });
        match existing {
            Some(_) => Ok(None),
            None => Ok(Some(name)),
        }
    }

    /// Records the photo `name` of album `msg.parent`, with its content
    /// hash and metadata. A name whose extension is not allowed is refused
    /// with `InvalidFileName`, and a photo of that name already in the album
    /// with a `DbError`; neither changes the store.
    pub fn record_photo(&self, store: &mut DbExecutor, msg: IndexFile, name: String, hash: String, metadata: PhotoMetadata)
        -> (r: Result<String, GalleryError>)
        requires
            old(store).wf(),
        ensures
            final(store).wf(),
            final(store).albums() == old(store).albums(),
            final(store).jobs() == old(store).jobs(),
            !extension_allowed(name@, self.config.allowed_extensions@) ==> {
                &&& r is Err && r->Err_0 is InvalidFileName
                &&& final(store).photos() == old(store).photos()
            },
            extension_allowed(name@, self.config.allowed_extensions@) ==> match r {
                Ok(id) => final(store).photos() == old(store).photos().push(
                    PhotoView { id: id@, ..record_of(name@, msg.parent@, hash@, metadata) })
                    && final(store).photos() == photo_after_record(old(store).photos(),
                    PhotoView { id: id@, ..record_of(name@, msg.parent@, hash@, metadata) }),
                Err(e) => final(store).photos() == old(store).photos() && e is DbError,
            },
            extension_allowed(name@, self.config.allowed_extensions@) && photo_index(old(store).photos(), msg.parent@, name@) is Some
                ==> r is Err,
    {
        if !has_allowed_extension(name.as_str(), &self.config.allowed_extensions) {
            return Err(GalleryError::InvalidFileName);
        }
        let camera = match &metadata.camera {
            Some(c) => Some(trim_one_char(c)),
            None => None,
        };
        let photo = Photo {
            id: String::new(),
            name,
            album_id: msg.parent,
            hash,
            creation_date: metadata.creation_date,
            camera,
            exposure_time: metadata.exposure_time,
            aperture: metadata.aperture,
            focal_length: metadata.focal_length,
            focal_length_in_35mm: metadata.focal_length_in_35mm,
            flash: metadata.flash,
        };
        store.create_photo(CreatePhoto { photo })
    }
}

} // verus!
