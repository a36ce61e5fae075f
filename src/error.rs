//! The error taxonomy of the gallery.
use vstd::prelude::*;

verus! {

/// A constraint of the metadata store that a write would break.
#[derive(Debug, Clone, Copy, PartialEq, Eq, Structural)]
pub enum StoreFault {
    /// A sibling album, or a photo of the same album, already has the name.
    DuplicateName,
    /// A second album without a parent.
    SecondRoot,
    /// The generated identifier is already taken.
    DuplicateId,
}

#[derive(Debug)]
pub enum GalleryError {
    /// A lookup found nothing; an expected outcome.
    NotFound,
    /// The image content could not be read or processed.
    ImageError(String),
    /// The file has an unsupported extension or an unrepresentable name.
    InvalidFileName,
    /// An unexpected lower-level failure.
    InternalError(String),
    /// A write that the metadata store refused.
    DbError(StoreFault),
    /// Path resolution stopped before the last segment: `missing_segments`
    /// trailing segments were not matched below the album `last_album`,
    /// whose breadcrumb is `current_breadcrumb`.
    AlbumNotFound {
        missing_segments: usize,
        last_album: String,
        current_breadcrumb: Vec<(String, String)>,
    },
    /// A submitted form holds an invalid value.
    InvalidForm(String),
}

impl GalleryError {
    /// The HTTP status a request that failed with this error is answered
    /// with: 404 for what was not found, 400 for an invalid form, 500 for
    /// the rest.
    pub fn status_code(&self) -> (r: u16)
        ensures
            (self is NotFound || self is AlbumNotFound) ==> r == 404,
            self is InvalidForm ==> r == 400,
            !(self is NotFound || self is AlbumNotFound || self is InvalidForm) ==> r == 500,
    {
        match self {
            GalleryError::NotFound | GalleryError::AlbumNotFound { .. } => 404,
            GalleryError::InvalidForm(_) => 400,
            _ => 500,
        }
    }
}

} // verus!
