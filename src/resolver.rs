//! Request paths resolved onto the view of an album or of a photo.
use vstd::prelude::*;
use vstd::string::*;
use crate::error::GalleryError;
use crate::models::{
    GetJobs, JobsTemplate, AlbumThumbnail, GetAdjacentPhotos, GetAlbum, GetAlbumsThumbnail, GetPhoto, GetPhotosThumbnail, Photo, PhotoThumbnail,
    opt_view,
};
use crate::config::{Config, ThumbnailConfig, ThumbnailSize};
use crate::paths::{file_name_of, get_file_name_string, path_segments, split_path, thumbnail_path};
use crate::store::{
    album_listing, crumbs_match, follow, is_next, is_previous, photo_index, photo_listing, prefix_path, root_index,
    segments_view, DbExecutor,
};
use crate::text::push_char;

verus! {

/// The view of an album: its name, breadcrumb and URL path, its child
/// albums and its photos, both in name order.
pub struct AlbumTemplate {
    pub name: String,
    pub breadcrumb: Vec<(String, String)>,
    pub album_path: String,
    pub albums: Vec<AlbumThumbnail>,
    pub photos: Vec<PhotoThumbnail>,
}

/// The view of a photo, with the breadcrumb and URL path of its album and
/// the names of the photos before and after it.
pub struct PhotoTemplate {
    pub name: String,
    pub photo: Photo,
    pub breadcrumb: Vec<(String, String)>,
    pub album_path: String,
    pub previous_photo: Option<String>,
    pub next_photo: Option<String>,
}

/// What a request path resolves to.
pub enum GalleryView {
    Album(AlbumTemplate),
    Photo(PhotoTemplate),
}

/// `t` is the view of the album reached by following all of `segs`.
pub open spec fn album_view_of(db: DbExecutor, segs: Seq<Seq<char>>, t: AlbumTemplate) -> bool {
    let s = db.albums();
    let i = follow(s, segs, segs.len())->Some_0;
    &&& follow(s, segs, segs.len()) is Some
    &&& t.name@ == s[i].name
    &&& crumbs_match(t.breadcrumb@, s[root_index(s)->Some_0].name, segs, segs.len())
    &&& t.album_path@ == prefix_path(segs, segs.len())
    &&& album_listing(s, s[i].id, t.albums@)
    &&& photo_listing(db.photos(), s[i].id, t.photos@)
}

/// `t` is the view of photo `i`, shown with the breadcrumb `crumbs`.
pub open spec fn photo_view_of(db: DbExecutor, i: int, crumbs: Seq<(String, String)>, t: PhotoTemplate) -> bool {
    let p = db.photos()[i];
    &&& t.photo@ == p
    &&& t.name@ == p.name
    &&& t.breadcrumb@ == crumbs
    &&& t.album_path@ == crumbs.last().0@
    &&& is_previous(db.photos(), p.album_id, p.name, opt_view(t.previous_photo))
    &&& is_next(db.photos(), p.album_id, p.name, opt_view(t.next_photo))
}

/// The URL path of the album at `segs`: empty for the root, otherwise a
/// slash before each segment.
pub fn get_album_url(segs: &Vec<String>) -> (r: String)
    ensures
        r@ == prefix_path(segments_view(segs@), segs@.len() as nat),
{
    let ghost v = segments_view(segs@);
    let mut r = String::new();
    let mut i: usize = 0;
    while i < segs.len()
        invariant
            v == segments_view(segs@),
            i <= segs@.len(),
            r@ == prefix_path(v, i as nat),
        decreases segs@.len() - i,
    {
        push_char(&mut r, '/');
        r.append(segs[i].as_str());
        assert(v[i as int] == segs@[i as int]@);
        assert(r@ =~= prefix_path(v, (i + 1) as nat));
        i = i + 1;
    }
    r
}

impl AlbumTemplate {
    /// The view of the album at `path`. Fails as the store's resolution of
    /// the path's segments does.
    pub fn get(path: &str, db: &DbExecutor) -> (r: Result<AlbumTemplate, GalleryError>)
        requires
            db.wf(),
        ensures
            ({
                let segs = path_segments(path@);
                let s = db.albums();
                let n = segs.len();
                match r {
                    Ok(t) => album_view_of(*db, segs, t),
                    Err(GalleryError::NotFound) => root_index(s) is None,
                    Err(GalleryError::AlbumNotFound { missing_segments, last_album, current_breadcrumb }) => {
                        exists|k: nat| {
                            &&& k < n
                            &&& #[trigger] follow(s, segs, k) is Some
                            &&& follow(s, segs, k + 1) is None
                            &&& missing_segments == n - k
                            &&& last_album@ == s[follow(s, segs, k)->Some_0].id
                            &&& crumbs_match(current_breadcrumb@, s[root_index(s)->Some_0].name, segs, k + 1)
                        }
                    },
                    Err(_) => false,
                }
            }),
    {
        let segs = split_path(path);
        let album_path = get_album_url(&segs);
        let res = match db.get_album(&GetAlbum { path: segs }) {
            Ok(res) => res,
            Err(e) => return Err(e),
        };
        let albums = db.get_albums_thumbnail(&GetAlbumsThumbnail { parent_album_id: res.album.id.clone() });
        let photos = db.get_photos_thumbnail(&GetPhotosThumbnail { parent_album_id: res.album.id.clone() });
        Ok(AlbumTemplate { name: res.album.name, breadcrumb: res.breadcrumb, album_path, albums, photos })
    }
}

impl PhotoTemplate {
    /// The view of the photo `name` of album `album_id`, shown under the
    /// album's breadcrumb; `NotFound` when the album holds no such photo.
    pub fn get(name: String, album_id: String, breadcrumb: Vec<(String, String)>, db: &DbExecutor)
        -> (r: Result<PhotoTemplate, GalleryError>)
        requires
            db.wf(),
            breadcrumb@.len() > 0,
        ensures
            match photo_index(db.photos(), album_id@, name@) {
                Some(i) => r is Ok && photo_view_of(*db, i, breadcrumb@, r->Ok_0),
                None => r is Err && r->Err_0 is NotFound,
            },
    {
        let photo = match db.get_photo(&GetPhoto { name, album_id }) {
            Ok(p) => p,
            Err(e) => return Err(e),
        };
        let (prev, next) = db.get_adjacent_photos(&GetAdjacentPhotos {
            name: photo.name.clone(),
            album_id: photo.album_id.clone(),
        });
        let album_path = breadcrumb[breadcrumb.len() - 1].0.clone();
        Ok(PhotoTemplate {
            name: photo.name.clone(),
            photo,
            breadcrumb,
            album_path,
            previous_photo: prev,
            next_photo: next,
        })
    }
}

/// Resolves `path` onto the view of an album or of a photo. When every
/// segment names an album, the last one's view; when all but the last do,
/// the view of the photo that the last segment names in the album reached;
/// `NotFound` otherwise.
pub fn gallery_route(path: &str, db: &DbExecutor) -> (r: Result<GalleryView, GalleryError>)
    requires
        db.wf(),
    ensures
        ({
            let segs = path_segments(path@);
            let s = db.albums();
            let n = segs.len();
            &&& root_index(s) is None ==> r is Err && r->Err_0 is NotFound
            &&& follow(s, segs, n) is Some ==> r is Ok && r->Ok_0 is Album && album_view_of(*db, segs, r->Ok_0->Album_0)
            &&& n >= 1 && follow(s, segs, (n - 1) as nat) is Some && follow(s, segs, n) is None ==> {
                let album = s[follow(s, segs, (n - 1) as nat)->Some_0].id;
                match photo_index(db.photos(), album, segs[n - 1]) {
                    Some(i) => r is Ok && r->Ok_0 is Photo && photo_view_of(*db, i, r->Ok_0->Photo_0.breadcrumb@, r->Ok_0->Photo_0)
                        && crumbs_match(r->Ok_0->Photo_0.breadcrumb@, s[root_index(s)->Some_0].name, segs, n),
                    None => r is Err && r->Err_0 is NotFound,
                }
            }
            &&& root_index(s) is Some && n >= 1 && follow(s, segs, (n - 1) as nat) is None ==> r is Err && r->Err_0 is NotFound
        }),
{
    let ghost segs = path_segments(path@);
    let ghost s = db.albums();
    let ghost n = segs.len();
    proof {
        if root_index(s) is None {
            crate::store::lemma_follow_fails_after(s, segs, 0, n);
            if n >= 1 {
                crate::store::lemma_follow_fails_after(s, segs, 0, (n - 1) as nat);
            }
        }
        if n >= 1 && follow(s, segs, (n - 1) as nat) is None {
            crate::store::lemma_follow_fails_after(s, segs, (n - 1) as nat, n);
        }
    }
    match AlbumTemplate::get(path, db) {
        Ok(t) => Ok(GalleryView::Album(t)),
        Err(GalleryError::AlbumNotFound { missing_segments, last_album, current_breadcrumb }) => {
            let ghost k = choose|k: nat| {
                &&& k < n
                &&& #[trigger] follow(s, segs, k) is Some
                &&& follow(s, segs, k + 1) is None
                &&& missing_segments == n - k
                &&& last_album@ == s[follow(s, segs, k)->Some_0].id
                &&& crumbs_match(current_breadcrumb@, s[root_index(s)->Some_0].name, segs, k + 1)
            };
            proof {
                crate::store::lemma_follow_fails_after(s, segs, k + 1, n);
                if follow(s, segs, (n - 1) as nat) is Some && k + 1 < n {
                    crate::store::lemma_follow_fails_after(s, segs, k + 1, (n - 1) as nat);
                }
            }
            if missing_segments == 1 {
                let segs_v = split_path(path);
                let name = segs_v[segs_v.len() - 1].clone();
                assert(name@ == segs[n - 1]);
                match PhotoTemplate::get(name, last_album, current_breadcrumb, db) {
                    Ok(t) => Ok(GalleryView::Photo(t)),
                    Err(e) => Err(e),
                }
            } else {
                proof {
                    if follow(s, segs, (n - 1) as nat) is Some {
                        assert(k + 1 >= n);
                    }
                }
                Err(GalleryError::NotFound)
            }
        },
        Err(e) => Err(e),
    }
}

impl JobsTemplate {
    /// The view of every job, in the order the jobs were created.
    pub fn get(db: &DbExecutor) -> (r: JobsTemplate)
        ensures
            r.jobs@.len() == db.jobs().len(),
            forall|k: int| 0 <= k < r.jobs@.len() ==> (#[trigger] r.jobs@[k])@ == db.jobs()[k],
    {
        JobsTemplate { jobs: db.get_jobs(&GetJobs) }
    }
}

/// The configuration of the size `size`.
pub open spec fn size_config(size: ThumbnailSize, config: Config) -> ThumbnailConfig {
    match size {
        ThumbnailSize::Small => config.small_thumbnail,
        ThumbnailSize::Medium => config.medium_thumbnail,
    }
}

/// The size that `name` names.
pub open spec fn size_named(name: Seq<char>) -> Option<ThumbnailSize> {
    if name == seq!['s', 'm', 'a', 'l', 'l'] {
        Some(ThumbnailSize::Small)
    } else if name == seq!['m', 'e', 'd', 'i', 'u', 'm'] {
        Some(ThumbnailSize::Medium)
    } else {
        None
    }
}

/// The walk down the tree reads only the segments it follows.
proof fn lemma_follow_prefix(s: Seq<crate::models::AlbumView>, a: Seq<Seq<char>>, b: Seq<Seq<char>>, k: nat)
    requires
        k <= a.len(),
        k <= b.len(),
        a.subrange(0, k as int) == b.subrange(0, k as int),
    ensures
        follow(s, a, k) == follow(s, b, k),
    decreases k,
{
    if k > 0 {
        assert(a.subrange(0, k - 1) =~= a.subrange(0, k as int).subrange(0, k - 1));
        assert(b.subrange(0, k - 1) =~= b.subrange(0, k as int).subrange(0, k - 1));
        lemma_follow_prefix(s, a, b, (k - 1) as nat);
        assert(a[k - 1] == a.subrange(0, k as int)[k - 1]);
        assert(b[k - 1] == b.subrange(0, k as int)[k - 1]);
    }
}

/// The cache file of the thumbnail, at the size named `thumbnail_size`, of
/// the photo at `path`. Fails with `InvalidFileName` when the path has no
/// file name, with `NotFound` for an unknown size or photo, and as the
/// resolution of the photo's album does otherwise.
pub fn thumbnail_route(path: &str, thumbnail_size: &str, db: &DbExecutor, config: &Config) -> (r: Result<String, GalleryError>)
    requires
        db.wf(),
    ensures
        ({
            let segs = path_segments(path@);
            let n = segs.len();
            let s = db.albums();
            match file_name_of(path@) {
                None => r is Err && r->Err_0 is InvalidFileName,
                Some(name) => match size_named(thumbnail_size@) {
                    None => r is Err && r->Err_0 is NotFound,
                    Some(size) => match follow(s, segs, (n - 1) as nat) {
                        None => r is Err && (r->Err_0 is NotFound || r->Err_0 is AlbumNotFound),
                        Some(i) => match photo_index(db.photos(), s[i].id, name) {
                            None => r is Err && r->Err_0 is NotFound,
                            Some(j) => r is Ok && r->Ok_0@ == thumbnail_path(config.cache_path@, db.photos()[j].hash,
                                size_config(size, *config).extension@),
                        },
                    },
                },
            }
        }),
{
    let ghost segs = path_segments(path@);
    let name = match get_file_name_string(path) {
        Ok(n) => n,
        Err(e) => return Err(e),
    };
    let size = match ThumbnailSize::from_name(thumbnail_size) {
        Some(size) => size,
        None => return Err(GalleryError::NotFound),
    };
    let thumbnail_config = size.get_thumbnail_config(config);
    let mut parent = split_path(path);
    let ghost all = parent@;
    parent.pop();
    proof {
        let n = segs.len();
        assert(segments_view(parent@) =~= segs.subrange(0, n - 1));
        assert(segments_view(parent@).subrange(0, n - 1) =~= segs.subrange(0, n - 1));
        lemma_follow_prefix(db.albums(), segments_view(parent@), segs, (n - 1) as nat);
    }
    let ghost psegs = segments_view(parent@);
    let res = match db.get_album(&GetAlbum { path: parent }) {
        Ok(res) => res,
        Err(e) => {
            proof {
                let s = db.albums();
                let m = psegs.len();
                if e is AlbumNotFound {
                    let k = choose|k: nat| k < m && #[trigger] follow(s, psegs, k) is Some && follow(s, psegs, k + 1) is None;
                    crate::store::lemma_follow_fails_after(s, psegs, k + 1, m);
                } else {
                    crate::store::lemma_follow_fails_after(s, psegs, 0, m);
                }
            }
            return Err(e);
        },
    };
    let photo = match db.get_photo(&GetPhoto { name, album_id: res.album.id }) {
        Ok(p) => p,
        Err(e) => return Err(e),
    };
    Ok(PhotoThumbnail::get_image_path(&photo.hash, thumbnail_config, config))
}

} // verus!
