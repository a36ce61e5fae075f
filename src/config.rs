//! The gallery's configuration, handed to each component as an immutable
//! value.
use vstd::prelude::*;

verus! {

/// One thumbnail size: the target size in pixels, whether the thumbnail is
/// cropped to a square, and the extension of its cache file.
#[derive(Clone)]
pub struct ThumbnailConfig {
    pub size: u32,
    pub square: bool,
    pub extension: String,
}

#[derive(Clone)]
pub struct DbConfig {
    pub url: String,
}

#[derive(Clone)]
pub struct Config {
    pub gallery_name: String,
    pub storage_path: String,
    pub cache_path: String,
    /// The file extensions that are indexed. A file's extension is put in
    /// lower case before it is looked up here.
    pub allowed_extensions: Vec<String>,
    pub small_thumbnail: ThumbnailConfig,
    pub medium_thumbnail: ThumbnailConfig,
    pub db: DbConfig,
}

/// The configured thumbnail sizes.
#[derive(Debug, Clone, Copy, PartialEq, Eq, Structural)]
pub enum ThumbnailSize {
    Small,
    Medium,
}

impl ThumbnailSize {
    pub fn get_thumbnail_config<'a>(&self, config: &'a Config) -> (r: &'a ThumbnailConfig)
        ensures
            *self == ThumbnailSize::Small ==> *r == config.small_thumbnail,
            *self == ThumbnailSize::Medium ==> *r == config.medium_thumbnail,
    {
        match self {
            ThumbnailSize::Small => &config.small_thumbnail,
            ThumbnailSize::Medium => &config.medium_thumbnail,
        }
    }

    /// Every size, each of which a photo gets a thumbnail of.
    pub fn all() -> (r: Vec<ThumbnailSize>)
        ensures
            r@ == seq![ThumbnailSize::Small, ThumbnailSize::Medium],
    {
        let mut r: Vec<ThumbnailSize> = Vec::new();
        r.push(ThumbnailSize::Small);
        r.push(ThumbnailSize::Medium);
        assert(r@ =~= seq![ThumbnailSize::Small, ThumbnailSize::Medium]);
        r
    }

    /// The size that a request names: `small` or `medium`.
    pub fn from_name(name: &str) -> (r: Option<ThumbnailSize>)
        ensures
            name@ == seq!['s', 'm', 'a', 'l', 'l'] ==> r == Some(ThumbnailSize::Small),
            name@ == seq!['m', 'e', 'd', 'i', 'u', 'm'] ==> r == Some(ThumbnailSize::Medium),
            name@ != seq!['s', 'm', 'a', 'l', 'l'] && name@ != seq!['m', 'e', 'd', 'i', 'u', 'm'] ==> r is None,
    {
        let small = String::from_str("small");
        let medium = String::from_str("medium");
        proof {
            reveal_strlit("small");
            reveal_strlit("medium");
            assert(small@ =~= seq!['s', 'm', 'a', 'l', 'l']);
            assert(medium@ =~= seq!['m', 'e', 'd', 'i', 'u', 'm']);
        }
        let n = String::from_str(name);
        if n == small {
            Some(ThumbnailSize::Small)
        } else if n == medium {
            Some(ThumbnailSize::Medium)
        } else {
            None
        }
    }
}

} // verus!
