//! The metadata store: albums, photos and jobs, held under the invariants
//! that keep the album tree and its photos free of duplicates. Every request
//! is a method call on one owner, so writes are totally ordered.
use vstd::prelude::*;
use vstd::string::*;
use crate::error::{GalleryError, StoreFault};
use crate::ids::new_id;
use crate::models::{
    clone_opt, opt_view, Album, AlbumView, Photo, PhotoView, Job, JobView, CreateAlbum, GetAlbumId, GetRootAlbumId,
    CreatePhoto, GetPhoto, GetPhotoId, GetAdjacentPhotos, GetAlbum, AlbumResult, CreateJob, ChangeState,
    GetJobs, STATE_CREATED, AlbumThumbnail, PhotoThumbnail, GetAlbumsThumbnail, GetPhotosThumbnail,
};
use crate::text::{names_sorted, sorted_insert, push_char, seq_lt, str_lt, lemma_lt_irreflexive, lemma_lt_transitive, lemma_lt_total, lemma_lt_asymmetric};

verus! {

/// Whether album `a` is a child named `name` of the album `parent`
/// (`None`: is a root).
pub open spec fn is_child(a: AlbumView, parent: Option<Seq<char>>, name: Seq<char>) -> bool {
    a.parent == parent && (parent is None || a.name == name)
}

/// No two albums share an identifier; no two albums are roots; no two
/// siblings share a name.
pub open spec fn albums_wf(s: Seq<AlbumView>) -> bool {
    &&& forall|i: int, j: int|
        0 <= i < s.len() && 0 <= j < s.len() && #[trigger] s[i].id == #[trigger] s[j].id ==> i == j
    &&& forall|i: int, j: int|
        0 <= i < s.len() && 0 <= j < s.len() && is_child(#[trigger] s[i], s[j].parent, #[trigger] s[j].name)
            ==> i == j
}

/// No two photos share an identifier, nor an album and a name.
pub open spec fn photos_wf(s: Seq<PhotoView>) -> bool {
    &&& forall|i: int, j: int|
        0 <= i < s.len() && 0 <= j < s.len() && #[trigger] s[i].id == #[trigger] s[j].id ==> i == j
    &&& forall|i: int, j: int|
        0 <= i < s.len() && 0 <= j < s.len() && #[trigger] s[i].album_id == #[trigger] s[j].album_id
            && s[i].name == s[j].name ==> i == j
}

pub open spec fn jobs_wf(s: Seq<JobView>) -> bool {
    forall|i: int, j: int|
        0 <= i < s.len() && 0 <= j < s.len() && #[trigger] s[i].id == #[trigger] s[j].id ==> i == j
}

/// The position of the album `name` under `parent` (`None`: the root).
pub open spec fn album_index(s: Seq<AlbumView>, parent: Option<Seq<char>>, name: Seq<char>) -> Option<int> {
    if exists|i: int| 0 <= i < s.len() && is_child(#[trigger] s[i], parent, name) {
        Some(choose|i: int| 0 <= i < s.len() && is_child(#[trigger] s[i], parent, name))
    } else {
        None
    }
}

pub open spec fn root_index(s: Seq<AlbumView>) -> Option<int> {
    album_index(s, None, Seq::empty())
}

pub open spec fn id_taken_by_album(s: Seq<AlbumView>, id: Seq<char>) -> bool {
    exists|i: int| 0 <= i < s.len() && (#[trigger] s[i]).id == id
}

/// The constraint that adding the album would break, if any.
pub open spec fn album_conflict(s: Seq<AlbumView>, id: Seq<char>, name: Seq<char>, parent: Option<Seq<char>>) -> Option<StoreFault> {
    if album_index(s, parent, name) is Some {
        if parent is None {
            Some(StoreFault::SecondRoot)
        } else {
            Some(StoreFault::DuplicateName)
        }
    } else if id_taken_by_album(s, id) {
        Some(StoreFault::DuplicateId)
    } else {
        None
    }
}

/// The position of the photo `name` in album `album`.
pub open spec fn photo_index(s: Seq<PhotoView>, album: Seq<char>, name: Seq<char>) -> Option<int> {
    if exists|i: int| 0 <= i < s.len() && (#[trigger] s[i]).album_id == album && s[i].name == name {
        Some(choose|i: int| 0 <= i < s.len() && (#[trigger] s[i]).album_id == album && s[i].name == name)
    } else {
        None
    }
}

pub open spec fn id_taken_by_photo(s: Seq<PhotoView>, id: Seq<char>) -> bool {
    exists|i: int| 0 <= i < s.len() && (#[trigger] s[i]).id == id
}

pub open spec fn photo_conflict(s: Seq<PhotoView>, p: PhotoView) -> Option<StoreFault> {
    if photo_index(s, p.album_id, p.name) is Some {
        Some(StoreFault::DuplicateName)
    } else if id_taken_by_photo(s, p.id) {
        Some(StoreFault::DuplicateId)
    } else {
        None
    }
}

/// Whether `r` is the name that comes right before `name` among the photos
/// of `album`.
pub open spec fn is_previous(s: Seq<PhotoView>, album: Seq<char>, name: Seq<char>, r: Option<Seq<char>>) -> bool {
    match r {
        None => forall|i: int| 0 <= i < s.len() && (#[trigger] s[i]).album_id == album ==> !seq_lt(s[i].name, name),
        Some(p) => {
            &&& seq_lt(p, name)
            &&& exists|i: int| 0 <= i < s.len() && (#[trigger] s[i]).album_id == album && s[i].name == p
            &&& forall|i: int|
                0 <= i < s.len() && (#[trigger] s[i]).album_id == album && seq_lt(s[i].name, name)
                    ==> !seq_lt(p, s[i].name)
        },
    }
}

/// Whether `r` is the name that comes right after `name` among the photos
/// of `album`.
pub open spec fn is_next(s: Seq<PhotoView>, album: Seq<char>, name: Seq<char>, r: Option<Seq<char>>) -> bool {
    match r {
        None => forall|i: int| 0 <= i < s.len() && (#[trigger] s[i]).album_id == album ==> !seq_lt(name, s[i].name),
        Some(p) => {
            &&& seq_lt(name, p)
            &&& exists|i: int| 0 <= i < s.len() && (#[trigger] s[i]).album_id == album && s[i].name == p
            &&& forall|i: int|
                0 <= i < s.len() && (#[trigger] s[i]).album_id == album && seq_lt(name, s[i].name)
                    ==> !seq_lt(s[i].name, p)
        },
    }
}

/// The album reached from the root by following the first `n` segments.
pub open spec fn follow(s: Seq<AlbumView>, segs: Seq<Seq<char>>, n: nat) -> Option<int>
    decreases n,
{
    if n == 0 {
        root_index(s)
    } else {
        match follow(s, segs, (n - 1) as nat) {
            Some(i) => album_index(s, Some(s[i].id), segs[n - 1]),
            None => None,
        }
    }
}

/// The URL path of the album after the first `n` segments: `/s1/s2/...`.
pub open spec fn prefix_path(segs: Seq<Seq<char>>, n: nat) -> Seq<char>
    decreases n,
{
    if n == 0 {
        Seq::empty()
    } else {
        prefix_path(segs, (n - 1) as nat) + seq!['/'] + segs[n - 1]
    }
}

/// Entry `j` of a breadcrumb: the link and the name of the `j`-th album on
/// the way from the root.
pub open spec fn crumb(root_name: Seq<char>, segs: Seq<Seq<char>>, j: nat) -> (Seq<char>, Seq<char>) {
    if j == 0 {
        (seq!['/'], root_name)
    } else {
        (prefix_path(segs, j), segs[j - 1])
    }
}

/// `b` is the breadcrumb of the first `len` albums on the way from the root.
pub open spec fn crumbs_match(b: Seq<(String, String)>, root_name: Seq<char>, segs: Seq<Seq<char>>, len: nat) -> bool {
    &&& b.len() == len
    &&& forall|j: int| 0 <= j < len ==> (#[trigger] b[j]).0@ == crumb(root_name, segs, j as nat).0
        && b[j].1@ == crumb(root_name, segs, j as nat).1
}

pub open spec fn segments_view(v: Seq<String>) -> Seq<Seq<char>> {
    v.map_values(|x: String| x@)
}

/// Once the walk down the tree fails it stays failed.
pub proof fn lemma_follow_fails_after(s: Seq<AlbumView>, segs: Seq<Seq<char>>, k: nat, n: nat)
    requires
        k <= n,
        follow(s, segs, k) is None,
    ensures
        follow(s, segs, n) is None,
    decreases n - k,
{
    if k < n {
        lemma_follow_fails_after(s, segs, k + 1, n);
    }
}

/// One of the first `upto` albums is a child of `pid` named `name`.
pub open spec fn has_child_named(s: Seq<AlbumView>, pid: Seq<char>, upto: int, name: Seq<char>) -> bool {
    exists|j: int| 0 <= j < upto && (#[trigger] s[j]).parent == Some(pid) && s[j].name == name
}

pub open spec fn is_listed(v: Seq<String>, name: Seq<char>) -> bool {
    exists|k: int| 0 <= k < v.len() && (#[trigger] v[k])@ == name
}

proof fn lemma_has_child_grows(s: Seq<AlbumView>, pid: Seq<char>, upto: int, name: Seq<char>)
    requires
        has_child_named(s, pid, upto, name),
    ensures
        has_child_named(s, pid, upto + 1, name),
{
    let j = choose|j: int| 0 <= j < upto && (#[trigger] s[j]).parent == Some(pid) && s[j].name == name;
    assert(0 <= j < upto + 1 && s[j].parent == Some(pid) && s[j].name == name);
}

/// One of the first `upto` photos is in album `aid`, named `name`, with the
/// capture date `date`.
pub open spec fn has_photo_entry(s: Seq<PhotoView>, aid: Seq<char>, upto: int, name: Seq<char>, date: Option<Seq<char>>) -> bool {
    exists|j: int| 0 <= j < upto && (#[trigger] s[j]).album_id == aid && s[j].name == name && s[j].creation_date == date
}

proof fn lemma_has_photo_grows(s: Seq<PhotoView>, aid: Seq<char>, upto: int, name: Seq<char>, date: Option<Seq<char>>)
    requires
        has_photo_entry(s, aid, upto, name, date),
    ensures
        has_photo_entry(s, aid, upto + 1, name, date),
{
    let j = choose|j: int| 0 <= j < upto && (#[trigger] s[j]).album_id == aid && s[j].name == name && s[j].creation_date == date;
    assert(0 <= j < upto + 1 && s[j].album_id == aid);
}

/// `r` lists the child albums of `pid` by name, in increasing order.
pub open spec fn album_listing(s: Seq<AlbumView>, pid: Seq<char>, r: Seq<AlbumThumbnail>) -> bool {
    &&& forall|a: int, b: int| 0 <= a < b < r.len() ==> seq_lt((#[trigger] r[a]).name@, (#[trigger] r[b]).name@)
    &&& forall|k: int| 0 <= k < r.len() ==> has_child_named(s, pid, s.len() as int, (#[trigger] r[k]).name@)
    &&& forall|i: int| 0 <= i < s.len() && (#[trigger] s[i]).parent == Some(pid)
        ==> exists|k: int| 0 <= k < r.len() && (#[trigger] r[k]).name@ == s[i].name
}

/// `r` lists the photos of album `aid` by name, in increasing order, each
/// with its capture date.
pub open spec fn photo_listing(s: Seq<PhotoView>, aid: Seq<char>, r: Seq<PhotoThumbnail>) -> bool {
    &&& forall|a: int, b: int| 0 <= a < b < r.len() ==> seq_lt((#[trigger] r[a]).name@, (#[trigger] r[b]).name@)
    &&& forall|k: int| 0 <= k < r.len() ==> has_photo_entry(s, aid, s.len() as int, (#[trigger] r[k]).name@,
        opt_view(r[k].creation_date))
    &&& forall|i: int| 0 <= i < s.len() && (#[trigger] s[i]).album_id == aid
        ==> exists|k: int| 0 <= k < r.len() && (#[trigger] r[k]).name@ == s[i].name
}

/// The in-memory metadata store.
pub struct DbExecutor {
    albums: Vec<Album>,
    photos: Vec<Photo>,
    jobs: Vec<Job>,
}

impl DbExecutor {
    pub closed spec fn albums(&self) -> Seq<AlbumView> {
        self.albums@.map_values(|a: Album| a@)
    }

    pub closed spec fn photos(&self) -> Seq<PhotoView> {
        self.photos@.map_values(|p: Photo| p@)
    }

    pub closed spec fn jobs(&self) -> Seq<JobView> {
        self.jobs@.map_values(|j: Job| j@)
    }

    pub open spec fn wf(&self) -> bool {
        &&& albums_wf(self.albums())
        &&& photos_wf(self.photos())
        &&& jobs_wf(self.jobs())
    }

    /// An empty store.
    pub fn new() -> (r: DbExecutor)
        ensures
            r.wf(),
            r.albums() == Seq::<AlbumView>::empty(),
            r.photos() == Seq::<PhotoView>::empty(),
            r.jobs() == Seq::<JobView>::empty(),
    {
        let r = DbExecutor { albums: Vec::new(), photos: Vec::new(), jobs: Vec::new() };
        assert(r.albums() =~= Seq::<AlbumView>::empty());
        assert(r.photos() =~= Seq::<PhotoView>::empty());
        assert(r.jobs() =~= Seq::<JobView>::empty());
        r
    }

    /// The position of the album `name` under `parent`.
    fn find_album(&self, parent: &Option<String>, name: &String) -> (r: Option<usize>)
        requires
            albums_wf(self.albums()),
        ensures
            match r {
                Some(i) => album_index(self.albums(), opt_view(*parent), name@) == Some(i as int),
                None => album_index(self.albums(), opt_view(*parent), name@) is None,
            },
    {
        let ghost s = self.albums();
        let mut i: usize = 0;
        while i < self.albums.len()
            invariant
                s == self.albums(),
                albums_wf(s),
                i <= self.albums@.len(),
                s.len() == self.albums@.len(),
                forall|k: int| 0 <= k < i ==> !is_child(#[trigger] s[k], opt_view(*parent), name@),
            decreases self.albums@.len() - i,
        {
            let a = &self.albums[i];
            assert(s[i as int] == a@);
            let found = match (parent, &a.parent_album_id) {
                (None, None) => true,
                (Some(p), Some(q)) => *p == *q && a.name == *name,
                _ => false,
            };
            assert(found == is_child(s[i as int], opt_view(*parent), name@));
            if found {
                let ghost c = choose|k: int| 0 <= k < s.len() && is_child(#[trigger] s[k], opt_view(*parent), name@);
                assert(is_child(s[c], s[i as int].parent, s[i as int].name));
                assert(c == i);
                return Some(i);
            }
            i = i + 1;
        }
        None
    }

    /// Whether an album already has the identifier `id`.
    fn album_id_taken(&self, id: &String) -> (r: bool)
        ensures
            r == id_taken_by_album(self.albums(), id@),
    {
        let ghost s = self.albums();
        let mut i: usize = 0;
        while i < self.albums.len()
            invariant
                s == self.albums(),
                i <= self.albums@.len(),
                s.len() == self.albums@.len(),
                forall|k: int| 0 <= k < i ==> (#[trigger] s[k]).id != id@,
            decreases self.albums@.len() - i,
        {
            assert(s[i as int] == self.albums@[i as int]@);
            if self.albums[i].id == *id {
                assert(s[i as int].id == id@);
                return true;
            }
            i = i + 1;
        }
        false
    }

    /// Adds the album of `msg` under the identifier `id`, unless that would
    /// break a constraint of the store.
    pub fn insert_album(&mut self, id: String, msg: CreateAlbum) -> (r: Result<String, GalleryError>)
        requires
            old(self).wf(),
        ensures
            final(self).wf(),
            final(self).photos() == old(self).photos(),
            final(self).jobs() == old(self).jobs(),
            match album_conflict(old(self).albums(), id@, msg.name@, opt_view(msg.parent_album_id)) {
                None => r is Ok && r->Ok_0@ == id@ && final(self).albums() == old(self).albums().push(
                    AlbumView { id: id@, name: msg.name@, parent: opt_view(msg.parent_album_id) }),
                Some(f) => r == Err::<String, GalleryError>(GalleryError::DbError(f))
                    && final(self).albums() == old(self).albums(),
            },
    {
        if let Some(_) = self.find_album(&msg.parent_album_id, &msg.name) {
            if msg.parent_album_id.is_none() {
                return Err(GalleryError::DbError(StoreFault::SecondRoot));
            } else {
                return Err(GalleryError::DbError(StoreFault::DuplicateName));
            }
        }
        if self.album_id_taken(&id) {
            return Err(GalleryError::DbError(StoreFault::DuplicateId));
        }
        let ghost s = self.albums();
        let album = Album { id: id.clone(), name: msg.name, parent_album_id: msg.parent_album_id };
        self.albums.push(album);
        assert(self.albums() =~= s.push(AlbumView { id: id@, name: msg.name@, parent: opt_view(msg.parent_album_id) }));
        let ghost t = self.albums();
        assert forall|i: int, j: int|
            0 <= i < t.len() && 0 <= j < t.len() && is_child(#[trigger] t[i], t[j].parent, #[trigger] t[j].name)
            implies i == j by {
            if i == s.len() && j < s.len() {
                assert(is_child(s[j], opt_view(msg.parent_album_id), msg.name@));
            }
            if j == s.len() && i < s.len() {
                assert(is_child(s[i], opt_view(msg.parent_album_id), msg.name@));
            }
        }
        assert forall|i: int, j: int|
            0 <= i < t.len() && 0 <= j < t.len() && #[trigger] t[i].id == #[trigger] t[j].id
            implies i == j by {
            if i == s.len() && j < s.len() {
                assert(s[j].id == id@);
            }
            if j == s.len() && i < s.len() {
                assert(s[i].id == id@);
            }
        }
        Ok(id)
    }

    /// The identifier of the album `msg.name` under `msg.parent_album_id`.
    pub fn get_album_id(&self, msg: &GetAlbumId) -> (r: Option<String>)
        requires
            self.wf(),
        ensures
            match album_index(self.albums(), Some(msg.parent_album_id@), msg.name@) {
                Some(i) => r is Some && r->Some_0@ == self.albums()[i].id,
                None => r is None,
            },
    {
        let parent = Some(msg.parent_album_id.clone());
        match self.find_album(&parent, &msg.name) {
            Some(i) => {
                proof { self.lemma_album_view(i as int); }
                Some(self.albums[i].id.clone())
            },
            None => None,
        }
    }

    /// The identifier of the root album, if there is one.
    pub fn get_root_album_id(&self, msg: &GetRootAlbumId) -> (r: Option<String>)
        requires
            self.wf(),
        ensures
            match root_index(self.albums()) {
                Some(i) => r is Some && r->Some_0@ == self.albums()[i].id,
                None => r is None,
            },
    {
        let none: Option<String> = None;
        let empty = String::new();
        match self.find_album(&none, &empty) {
            Some(i) => {
                proof { self.lemma_album_view(i as int); }
                Some(self.albums[i].id.clone())
            },
            None => None,
        }
    }

    /// Adds an album named `msg.name` under `msg.parent_album_id` with a
    /// newly generated identifier, which it returns.
    pub fn create_album(&mut self, msg: CreateAlbum) -> (r: Result<String, GalleryError>)
        requires
            old(self).wf(),
        ensures
            final(self).wf(),
            final(self).photos() == old(self).photos(),
            final(self).jobs() == old(self).jobs(),
            match r {
                Ok(id) => final(self).albums() == old(self).albums().push(
                    AlbumView { id: id@, name: msg.name@, parent: opt_view(msg.parent_album_id) })
                    && !id_taken_by_album(old(self).albums(), id@),
                Err(e) => final(self).albums() == old(self).albums() && e is DbError,
            },
            album_index(old(self).albums(), opt_view(msg.parent_album_id), msg.name@) is Some ==> r is Err,
    {
        let id = new_id();
        self.insert_album(id, msg)
    }

    /// The position of the photo `name` in album `album_id`.
    fn find_photo(&self, album_id: &String, name: &String) -> (r: Option<usize>)
        requires
            photos_wf(self.photos()),
        ensures
            match r {
                Some(i) => photo_index(self.photos(), album_id@, name@) == Some(i as int),
                None => photo_index(self.photos(), album_id@, name@) is None,
            },
    {
        let ghost s = self.photos();
        let mut i: usize = 0;
        while i < self.photos.len()
            invariant
                s == self.photos(),
                photos_wf(s),
                i <= self.photos@.len(),
                s.len() == self.photos@.len(),
                forall|k: int| 0 <= k < i ==> !((#[trigger] s[k]).album_id == album_id@ && s[k].name == name@),
            decreases self.photos@.len() - i,
        {
            let p = &self.photos[i];
            assert(s[i as int] == p@);
            if p.album_id == *album_id && p.name == *name {
                let ghost c = choose|k: int| 0 <= k < s.len() && (#[trigger] s[k]).album_id == album_id@ && s[k].name == name@;
                assert(s[c].album_id == s[i as int].album_id);
                return Some(i);
            }
            i = i + 1;
        }
        None
    }

    fn photo_id_taken(&self, id: &String) -> (r: bool)
        ensures
            r == id_taken_by_photo(self.photos(), id@),
    {
        let ghost s = self.photos();
        let mut i: usize = 0;
        while i < self.photos.len()
            invariant
                s == self.photos(),
                i <= self.photos@.len(),
                s.len() == self.photos@.len(),
                forall|k: int| 0 <= k < i ==> (#[trigger] s[k]).id != id@,
            decreases self.photos@.len() - i,
        {
            assert(s[i as int] == self.photos@[i as int]@);
            if self.photos[i].id == *id {
                return true;
            }
            i = i + 1;
        }
        false
    }

    /// Adds the photo of `msg` under the identifier `id`, unless its album
    /// already holds a photo of that name or the identifier is taken.
    pub fn insert_photo(&mut self, id: String, msg: CreatePhoto) -> (r: Result<String, GalleryError>)
        requires
            old(self).wf(),
        ensures
            final(self).wf(),
            final(self).albums() == old(self).albums(),
            final(self).jobs() == old(self).jobs(),
            match photo_conflict(old(self).photos(), msg.photo.with_id(id@)) {
                None => r is Ok && r->Ok_0@ == id@
                    && final(self).photos() == old(self).photos().push(msg.photo.with_id(id@)),
                Some(f) => r == Err::<String, GalleryError>(GalleryError::DbError(f))
                    && final(self).photos() == old(self).photos(),
            },
    {
        let mut photo = msg.photo;
        if let Some(_) = self.find_photo(&photo.album_id, &photo.name) {
            return Err(GalleryError::DbError(StoreFault::DuplicateName));
        }
        if self.photo_id_taken(&id) {
            return Err(GalleryError::DbError(StoreFault::DuplicateId));
        }
        let ghost s = self.photos();
        let ghost v = photo.with_id(id@);
        photo.id = id.clone();
        assert(photo@ == v);
        self.photos.push(photo);
        assert(self.photos() =~= s.push(v));
        let ghost t = self.photos();
        assert forall|i: int, j: int|
            0 <= i < t.len() && 0 <= j < t.len() && #[trigger] t[i].album_id == #[trigger] t[j].album_id
                && t[i].name == t[j].name
            implies i == j by {
            if i == s.len() && j < s.len() {
                assert(s[j].album_id == v.album_id && s[j].name == v.name);
            }
            if j == s.len() && i < s.len() {
                assert(s[i].album_id == v.album_id && s[i].name == v.name);
            }
        }
        assert forall|i: int, j: int|
            0 <= i < t.len() && 0 <= j < t.len() && #[trigger] t[i].id == #[trigger] t[j].id
            implies i == j by {
            if i == s.len() && j < s.len() {
                assert(s[j].id == id@);
            }
            if j == s.len() && i < s.len() {
                assert(s[i].id == id@);
            }
        }
        Ok(id)
    }

    /// Adds the photo of `msg` with a newly generated identifier, which it
    /// returns.
    pub fn create_photo(&mut self, msg: CreatePhoto) -> (r: Result<String, GalleryError>)
        requires
            old(self).wf(),
        ensures
            final(self).wf(),
            final(self).albums() == old(self).albums(),
            final(self).jobs() == old(self).jobs(),
            match r {
                Ok(id) => final(self).photos() == old(self).photos().push(msg.photo.with_id(id@))
                    && !id_taken_by_photo(old(self).photos(), id@),
                Err(e) => final(self).photos() == old(self).photos() && e is DbError,
            },
            photo_index(old(self).photos(), msg.photo.album_id@, msg.photo.name@) is Some ==> r is Err,
    {
        let id = new_id();
        self.insert_photo(id, msg)
    }

    /// The identifier of the photo `msg.name` in album `msg.album_id`.
    pub fn get_photo_id(&self, msg: &GetPhotoId) -> (r: Option<String>)
        requires
            self.wf(),
        ensures
            match photo_index(self.photos(), msg.album_id@, msg.name@) {
                Some(i) => r is Some && r->Some_0@ == self.photos()[i].id,
                None => r is None,
            },
    {
        match self.find_photo(&msg.album_id, &msg.name) {
            Some(i) => {
                assert(self.photos()[i as int] == self.photos@[i as int]@);
                Some(self.photos[i].id.clone())
            },
            None => None,
        }
    }

    /// The photo `msg.name` of album `msg.album_id`.
    pub fn get_photo(&self, msg: &GetPhoto) -> (r: Result<Photo, GalleryError>)
        requires
            self.wf(),
        ensures
            match photo_index(self.photos(), msg.album_id@, msg.name@) {
                Some(i) => r is Ok && r->Ok_0@ == self.photos()[i],
                None => r is Err && r->Err_0 is NotFound,
            },
    {
        match self.find_photo(&msg.album_id, &msg.name) {
            Some(i) => {
                assert(self.photos()[i as int] == self.photos@[i as int]@);
                Ok(self.photos[i].duplicate())
            },
            None => Err(GalleryError::NotFound),
        }
    }

    /// The names of the photos of `msg.album_id` that come right before and
    /// right after `msg.name`, in name order.
    pub fn get_adjacent_photos(&self, msg: &GetAdjacentPhotos) -> (r: (Option<String>, Option<String>))
        ensures
            is_previous(self.photos(), msg.album_id@, msg.name@, opt_view(r.0)),
            is_next(self.photos(), msg.album_id@, msg.name@, opt_view(r.1)),
    {
        let ghost s = self.photos();
        let ghost album = msg.album_id@;
        let ghost name = msg.name@;
        let mut prev: Option<usize> = None;
        let mut next: Option<usize> = None;
        let mut i: usize = 0;
        while i < self.photos.len()
            invariant
                s == self.photos(),
                s.len() == self.photos@.len(),
                i <= s.len(),
                album == msg.album_id@,
                name == msg.name@,
                match prev {
                    None => forall|k: int| 0 <= k < i && (#[trigger] s[k]).album_id == album ==> !seq_lt(s[k].name, name),
                    Some(p) => {
                        &&& p < i
                        &&& s[p as int].album_id == album
                        &&& seq_lt(s[p as int].name, name)
                        &&& forall|k: int| 0 <= k < i && (#[trigger] s[k]).album_id == album && seq_lt(s[k].name, name)
                            ==> !seq_lt(s[p as int].name, s[k].name)
                    },
                },
                match next {
                    None => forall|k: int| 0 <= k < i && (#[trigger] s[k]).album_id == album ==> !seq_lt(name, s[k].name),
                    Some(p) => {
                        &&& p < i
                        &&& s[p as int].album_id == album
                        &&& seq_lt(name, s[p as int].name)
                        &&& forall|k: int| 0 <= k < i && (#[trigger] s[k]).album_id == album && seq_lt(name, s[k].name)
                            ==> !seq_lt(s[k].name, s[p as int].name)
                    },
                },
            decreases s.len() - i,
        {
            let ph = &self.photos[i];
            assert(s[i as int] == ph@);
            proof { lemma_lt_irreflexive(ph.name@); }
            if ph.album_id == msg.album_id {
                if str_lt(ph.name.as_str(), msg.name.as_str()) {
                    let better = match prev {
                        None => true,
                        Some(p) => str_lt(self.photos[p].name.as_str(), ph.name.as_str()),
                    };
                    proof {
                        if let Some(p) = prev {
                            assert(s[p as int] == self.photos@[p as int]@);
                            if better {
                                assert forall|k: int| 0 <= k < i && (#[trigger] s[k]).album_id == album && seq_lt(s[k].name, name)
                                    implies !seq_lt(ph.name@, s[k].name) by {
                                    if seq_lt(ph.name@, s[k].name) {
                                        lemma_lt_transitive(s[p as int].name, ph.name@, s[k].name);
                                    }
                                }
                            } else {
                                if s[p as int].name != ph.name@ {
                                    lemma_lt_total(s[p as int].name, ph.name@);
                                }
                                lemma_lt_asymmetric(s[p as int].name, ph.name@);
                            }
                        }
                    }
                    if better {
                        prev = Some(i);
                    }
                }
                if str_lt(msg.name.as_str(), ph.name.as_str()) {
                    let better = match next {
                        None => true,
                        Some(p) => str_lt(ph.name.as_str(), self.photos[p].name.as_str()),
                    };
                    proof {
                        if let Some(p) = next {
                            assert(s[p as int] == self.photos@[p as int]@);
                            if better {
                                assert forall|k: int| 0 <= k < i && (#[trigger] s[k]).album_id == album && seq_lt(name, s[k].name)
                                    implies !seq_lt(s[k].name, ph.name@) by {
                                    if seq_lt(s[k].name, ph.name@) {
                                        lemma_lt_transitive(s[k].name, ph.name@, s[p as int].name);
                                    }
                                }
                            } else {
                                if s[p as int].name != ph.name@ {
                                    lemma_lt_total(s[p as int].name, ph.name@);
                                }
                                lemma_lt_asymmetric(s[p as int].name, ph.name@);
                            }
                        }
                    }
                    if better {
                        next = Some(i);
                    }
                }
            }
            i = i + 1;
        }
        let r0 = match prev {
            Some(p) => {
                assert(s[p as int] == self.photos@[p as int]@);
                Some(self.photos[p].name.clone())
            },
            None => None,
        };
        let r1 = match next {
            Some(p) => {
                assert(s[p as int] == self.photos@[p as int]@);
                Some(self.photos[p].name.clone())
            },
            None => None,
        };
        (r0, r1)
    }

    /// Resolves the segments of `msg.path`, from the root down, onto an
    /// album. Fails with `NotFound` when there is no root, and with
    /// `AlbumNotFound` at the first segment that names no child album,
    /// carrying the number of segments left, the last album matched and its
    /// breadcrumb.
    pub fn get_album(&self, msg: &GetAlbum) -> (r: Result<AlbumResult, GalleryError>)
        requires
            self.wf(),
        ensures
            ({
                let s = self.albums();
                let segs = segments_view(msg.path@);
                let n = segs.len();
                match r {
                    Ok(res) => {
                        &&& follow(s, segs, n) is Some
                        &&& res.album@ == s[follow(s, segs, n)->Some_0]
                        &&& crumbs_match(res.breadcrumb@, s[root_index(s)->Some_0].name, segs, n)
                    },
                    Err(GalleryError::NotFound) => root_index(s) is None,
                    Err(GalleryError::AlbumNotFound { missing_segments, last_album, current_breadcrumb }) => {
                        exists|k: nat| {
                            &&& k < n
                            &&& #[trigger] follow(s, segs, k) is Some
                            &&& follow(s, segs, k + 1) is None
                            &&& missing_segments == n - k
                            &&& last_album@ == s[follow(s, segs, k)->Some_0].id
                            &&& crumbs_match(current_breadcrumb@, s[root_index(s)->Some_0].name, segs, k + 1)
                        }
                    },
                    Err(_) => false,
                }
            }),
    {
        let ghost s = self.albums();
        let ghost segs = segments_view(msg.path@);
        let no_parent: Option<String> = None;
        let empty = String::new();
        let root = match self.find_album(&no_parent, &empty) {
            Some(i) => i,
            None => return Err(GalleryError::NotFound),
        };
        proof { self.lemma_album_view(root as int); }
        let ghost root_name = s[root as int].name;
        let mut slash = String::new();
        push_char(&mut slash, '/');
        let mut breadcrumb: Vec<(String, String)> = Vec::new();
        breadcrumb.push((slash, self.albums[root].name.clone()));
        let mut current_path = String::new();
        let mut cur: usize = root;
        let n = msg.path.len();
        let mut k: usize = 0;
        assert(current_path@ =~= prefix_path(segs, 0));
        while k < n
            invariant
                s == self.albums(),
                albums_wf(s),
                segs == segments_view(msg.path@),
                n == msg.path@.len(),
                root_index(s) == Some(root as int),
                root_name == s[root as int].name,
                k <= n,
                cur < s.len(),
                follow(s, segs, k as nat) == Some(cur as int),
                current_path@ == prefix_path(segs, k as nat),
                crumbs_match(breadcrumb@, root_name, segs, (k + 1) as nat),
            decreases n - k,
        {
            proof { self.lemma_album_view(cur as int); }
            let parent = Some(self.albums[cur].id.clone());
            let seg = &msg.path[k];
            assert(segs[k as int] == seg@);
            match self.find_album(&parent, seg) {
                None => {
                    let last_album = self.albums[cur].id.clone();
                    assert(follow(s, segs, (k + 1) as nat) is None);
                    return Err(GalleryError::AlbumNotFound {
                        missing_segments: n - k,
                        last_album,
                        current_breadcrumb: breadcrumb,
                    });
                },
                Some(j) => {
                    proof { self.lemma_album_view(j as int); }
                    assert(is_child(s[j as int], Some(s[cur as int].id), seg@));
                    let ghost b0 = breadcrumb@;
                    push_char(&mut current_path, '/');
                    current_path.append(self.albums[j].name.as_str());
                    assert(current_path@ =~= prefix_path(segs, (k + 1) as nat));
                    breadcrumb.push((current_path.clone(), self.albums[j].name.clone()));
                    assert forall|m: int| 0 <= m < k + 2 implies (#[trigger] breadcrumb@[m]).0@
                        == crumb(root_name, segs, m as nat).0 && breadcrumb@[m].1@ == crumb(root_name, segs, m as nat).1 by {
                        if m < k + 1 {
                            assert(breadcrumb@[m] == b0[m]);
                        }
                    }
                    cur = j;
                    k = k + 1;
                },
            }
        }
        let ghost b1 = breadcrumb@;
        breadcrumb.pop();
        assert forall|m: int| 0 <= m < n implies (#[trigger] breadcrumb@[m]).0@
            == crumb(root_name, segs, m as nat).0 && breadcrumb@[m].1@ == crumb(root_name, segs, m as nat).1 by {
            assert(breadcrumb@[m] == b1[m]);
        }
        proof { self.lemma_album_view(cur as int); }
        Ok(AlbumResult { album: self.albums[cur].duplicate(), breadcrumb })
    }

    fn find_job(&self, id: &String) -> (r: Option<usize>)
        requires
            jobs_wf(self.jobs()),
        ensures
            match r {
                Some(i) => i < self.jobs().len() && self.jobs()[i as int].id == id@,
                None => forall|k: int| 0 <= k < self.jobs().len() ==> (#[trigger] self.jobs()[k]).id != id@,
            },
    {
        let ghost s = self.jobs();
        let mut i: usize = 0;
        while i < self.jobs.len()
            invariant
                s == self.jobs(),
                i <= self.jobs@.len(),
                s.len() == self.jobs@.len(),
                forall|k: int| 0 <= k < i ==> (#[trigger] s[k]).id != id@,
            decreases self.jobs@.len() - i,
        {
            assert(s[i as int] == self.jobs@[i as int]@);
            if self.jobs[i].id == *id {
                return Some(i);
            }
            i = i + 1;
        }
        None
    }

    /// Records a new job named `msg.name`, in the state `created`, under
    /// the identifier `id`, unless that identifier is taken.
    pub fn insert_job(&mut self, id: String, msg: CreateJob) -> (r: Result<String, GalleryError>)
        requires
            old(self).wf(),
        ensures
            final(self).wf(),
            final(self).albums() == old(self).albums(),
            final(self).photos() == old(self).photos(),
            (exists|k: int| 0 <= k < old(self).jobs().len() && (#[trigger] old(self).jobs()[k]).id == id@) ==> {
                &&& r == Err::<String, GalleryError>(GalleryError::DbError(StoreFault::DuplicateId))
                &&& final(self).jobs() == old(self).jobs()
            },
            !(exists|k: int| 0 <= k < old(self).jobs().len() && (#[trigger] old(self).jobs()[k]).id == id@) ==> {
                &&& r is Ok && r->Ok_0@ == id@
                &&& final(self).jobs() == old(self).jobs().push(
                    JobView { id: id@, name: msg.name@, state: STATE_CREATED@ })
            },
    {
        if let Some(_) = self.find_job(&id) {
            return Err(GalleryError::DbError(StoreFault::DuplicateId));
        }
        let ghost s = self.jobs();
        let job = Job { id: id.clone(), name: msg.name, state: String::from_str(STATE_CREATED) };
        self.jobs.push(job);
        assert(self.jobs() =~= s.push(JobView { id: id@, name: msg.name@, state: STATE_CREATED@ }));
        let ghost t = self.jobs();
        assert forall|i: int, j: int|
            0 <= i < t.len() && 0 <= j < t.len() && #[trigger] t[i].id == #[trigger] t[j].id
            implies i == j by {
            if i == s.len() && j < s.len() {
                assert(s[j].id == id@);
            }
            if j == s.len() && i < s.len() {
                assert(s[i].id == id@);
            }
        }
        Ok(id)
    }

    /// Records a new job named `msg.name`, in the state `created`, with a
    /// newly generated identifier, which it returns.
    pub fn create_job(&mut self, msg: CreateJob) -> (r: Result<String, GalleryError>)
        requires
            old(self).wf(),
        ensures
            final(self).wf(),
            final(self).albums() == old(self).albums(),
            final(self).photos() == old(self).photos(),
            match r {
                Ok(id) => final(self).jobs() == old(self).jobs().push(
                    JobView { id: id@, name: msg.name@, state: STATE_CREATED@ }),
                Err(e) => final(self).jobs() == old(self).jobs() && e == GalleryError::DbError(StoreFault::DuplicateId),
            },
    {
        let id = new_id();
        self.insert_job(id, msg)
    }

    /// Sets the state of the job `msg.job_id` to `msg.new_state`.
    pub fn change_state(&mut self, msg: ChangeState) -> (r: Result<(), GalleryError>)
        requires
            old(self).wf(),
        ensures
            final(self).wf(),
            final(self).albums() == old(self).albums(),
            final(self).photos() == old(self).photos(),
            match r {
                Ok(_) => exists|k: int| 0 <= k < old(self).jobs().len() && (#[trigger] old(self).jobs()[k]).id == msg.job_id@
                    && final(self).jobs() == old(self).jobs().update(k, JobView { state: msg.new_state@, ..old(self).jobs()[k] }),
                Err(e) => e is NotFound && final(self).jobs() == old(self).jobs()
                    && forall|k: int| 0 <= k < old(self).jobs().len() ==> (#[trigger] old(self).jobs()[k]).id != msg.job_id@,
            },
    {
        match self.find_job(&msg.job_id) {
            None => Err(GalleryError::NotFound),
            Some(i) => {
                let ghost s = self.jobs();
                assert(s[i as int] == self.jobs@[i as int]@);
                let job = Job { id: self.jobs[i].id.clone(), name: self.jobs[i].name.clone(), state: msg.new_state };
                let ghost v = JobView { state: msg.new_state@, ..s[i as int] };
                assert(job@ == v);
                self.jobs.set(i, job);
                assert(self.jobs() =~= s.update(i as int, v));
                Ok(())
            },
        }
    }

    /// All jobs, in the order they were created.
    pub fn get_jobs(&self, msg: &GetJobs) -> (r: Vec<Job>)
        ensures
            r@.len() == self.jobs().len(),
            forall|k: int| 0 <= k < r@.len() ==> (#[trigger] r@[k])@ == self.jobs()[k],
    {
        let mut r: Vec<Job> = Vec::new();
        let mut i: usize = 0;
        while i < self.jobs.len()
            invariant
                i <= self.jobs@.len(),
                r@.len() == i,
                forall|k: int| 0 <= k < i ==> (#[trigger] r@[k])@ == self.jobs()[k],
            decreases self.jobs@.len() - i,
        {
            let j = &self.jobs[i];
            assert(self.jobs()[i as int] == j@);
            r.push(Job { id: j.id.clone(), name: j.name.clone(), state: j.state.clone() });
            i = i + 1;
        }
        r
    }

    /// The child albums of `msg.parent_album_id`, in increasing name order.
    pub fn get_albums_thumbnail(&self, msg: &GetAlbumsThumbnail) -> (r: Vec<AlbumThumbnail>)
        requires
            self.wf(),
        ensures
            album_listing(self.albums(), msg.parent_album_id@, r@),
    {
        let ghost s = self.albums();
        let ghost pid = msg.parent_album_id@;
        let mut names: Vec<String> = Vec::new();
        let mut i: usize = 0;
        while i < self.albums.len()
            invariant
                s == self.albums(),
                albums_wf(s),
                pid == msg.parent_album_id@,
                i <= s.len(),
                s.len() == self.albums@.len(),
                names_sorted(names@),
                forall|k: int| 0 <= k < names@.len() ==> has_child_named(s, pid, i as int, (#[trigger] names@[k])@),
                forall|j: int| 0 <= j < i && (#[trigger] s[j]).parent == Some(pid) ==> is_listed(names@, s[j].name),
            decreases s.len() - i,
        {
            let a = &self.albums[i];
            assert(s[i as int] == a@);
            let under = match &a.parent_album_id {
                Some(p) => *p == msg.parent_album_id,
                None => false,
            };
            let ghost v0 = names@;
            if under {
                assert forall|k: int| 0 <= k < v0.len() implies (#[trigger] v0[k])@ != a.name@ by {
                    let j = choose|j: int| 0 <= j < i && (#[trigger] s[j]).parent == Some(pid) && s[j].name == v0[k]@;
                    if v0[k]@ == a.name@ {
                        assert(is_child(s[j], s[i as int].parent, s[i as int].name));
                    }
                }
                let pos = sorted_insert(&mut names, a.name.clone());
                assert forall|k: int| 0 <= k < names@.len() implies has_child_named(s, pid, i + 1, (#[trigger] names@[k])@) by {
                    if k < pos {
                        assert(names@[k] == v0[k]);
                        lemma_has_child_grows(s, pid, i as int, names@[k]@);
                    } else if k == pos {
                        assert(s[i as int].name == names@[k]@);
                    } else {
                        assert(names@[k] == v0[k - 1]);
                        lemma_has_child_grows(s, pid, i as int, names@[k]@);
                    }
                }
                assert forall|j: int| 0 <= j < i + 1 && (#[trigger] s[j]).parent == Some(pid)
                    implies is_listed(names@, s[j].name) by {
                    if j == i {
                        assert(names@[pos as int]@ == s[j].name);
                    } else {
                        let k = choose|k: int| 0 <= k < v0.len() && (#[trigger] v0[k])@ == s[j].name;
                        if k < pos {
                            assert(names@[k] == v0[k]);
                        } else {
                            assert(names@[k + 1] == v0[k]);
                        }
                    }
                }
            } else {
                assert forall|k: int| 0 <= k < names@.len() implies has_child_named(s, pid, i + 1, (#[trigger] names@[k])@) by {
                    lemma_has_child_grows(s, pid, i as int, names@[k]@);
                }
            }
            i = i + 1;
        }
        let mut r: Vec<AlbumThumbnail> = Vec::new();
        let mut k: usize = 0;
        while k < names.len()
            invariant
                k <= names@.len(),
                r@.len() == k,
                forall|m: int| 0 <= m < k ==> (#[trigger] r@[m]).name@ == names@[m]@,
            decreases names@.len() - k,
        {
            r.push(AlbumThumbnail::new(names[k].clone()));
            k = k + 1;
        }
        assert forall|a: int, b: int| 0 <= a < b < r@.len() implies seq_lt((#[trigger] r@[a]).name@, (#[trigger] r@[b]).name@) by {
            assert(seq_lt(names@[a]@, names@[b]@));
        }
        assert forall|m: int| 0 <= m < r@.len() implies has_child_named(s, pid, s.len() as int, (#[trigger] r@[m]).name@) by {
            assert(r@[m].name@ == names@[m]@);
        }
        assert forall|j: int| 0 <= j < s.len() && (#[trigger] s[j]).parent == Some(pid)
            implies exists|m: int| 0 <= m < r@.len() && (#[trigger] r@[m]).name@ == s[j].name by {
            let m = choose|m: int| 0 <= m < names@.len() && (#[trigger] names@[m])@ == s[j].name;
            assert(r@[m].name@ == names@[m]@);
        }
        r
    }

    /// The photos of album `msg.parent_album_id`, in increasing name order,
    /// each with its capture date.
    pub fn get_photos_thumbnail(&self, msg: &GetPhotosThumbnail) -> (r: Vec<PhotoThumbnail>)
        requires
            self.wf(),
        ensures
            photo_listing(self.photos(), msg.parent_album_id@, r@),
    {
        let ghost s = self.photos();
        let ghost aid = msg.parent_album_id@;
        let mut names: Vec<String> = Vec::new();
        let mut dates: Vec<Option<String>> = Vec::new();
        let mut i: usize = 0;
        while i < self.photos.len()
            invariant
                s == self.photos(),
                photos_wf(s),
                aid == msg.parent_album_id@,
                i <= s.len(),
                s.len() == self.photos@.len(),
                names_sorted(names@),
                dates@.len() == names@.len(),
                forall|k: int| 0 <= k < names@.len() ==> has_photo_entry(s, aid, i as int, (#[trigger] names@[k])@, opt_view(dates@[k])),
                forall|j: int| 0 <= j < i && (#[trigger] s[j]).album_id == aid ==> is_listed(names@, s[j].name),
            decreases s.len() - i,
        {
            let ph = &self.photos[i];
            assert(s[i as int] == ph@);
            let ghost v0 = names@;
            let ghost d0 = dates@;
            if ph.album_id == msg.parent_album_id {
                assert forall|k: int| 0 <= k < v0.len() implies (#[trigger] v0[k])@ != ph.name@ by {
                    let j = choose|j: int| 0 <= j < i && (#[trigger] s[j]).album_id == aid && s[j].name == v0[k]@
                        && s[j].creation_date == opt_view(d0[k]);
                    if v0[k]@ == ph.name@ {
                        assert(s[j].album_id == s[i as int].album_id);
                    }
                }
                let pos = sorted_insert(&mut names, ph.name.clone());
                dates.insert(pos, clone_opt(&ph.creation_date));
                assert forall|k: int| 0 <= k < names@.len() implies has_photo_entry(s, aid, i + 1,
                    (#[trigger] names@[k])@, opt_view(dates@[k])) by {
                    if k < pos {
                        assert(names@[k] == v0[k]);
                        assert(dates@[k] == d0[k]);
                        lemma_has_photo_grows(s, aid, i as int, names@[k]@, opt_view(dates@[k]));
                    } else if k == pos {
                        assert(s[i as int].name == names@[k]@);
                    } else {
                        assert(names@[k] == v0[k - 1]);
                        assert(dates@[k] == d0[k - 1]);
                        lemma_has_photo_grows(s, aid, i as int, names@[k]@, opt_view(dates@[k]));
                    }
                }
                assert forall|j: int| 0 <= j < i + 1 && (#[trigger] s[j]).album_id == aid
                    implies is_listed(names@, s[j].name) by {
                    if j == i {
                        assert(names@[pos as int]@ == s[j].name);
                    } else {
                        let k = choose|k: int| 0 <= k < v0.len() && (#[trigger] v0[k])@ == s[j].name;
                        if k < pos {
                            assert(names@[k] == v0[k]);
                        } else {
                            assert(names@[k + 1] == v0[k]);
                        }
                    }
                }
            } else {
                assert forall|k: int| 0 <= k < names@.len() implies has_photo_entry(s, aid, i + 1,
                    (#[trigger] names@[k])@, opt_view(dates@[k])) by {
                    lemma_has_photo_grows(s, aid, i as int, names@[k]@, opt_view(dates@[k]));
                }
            }
            i = i + 1;
        }
        let mut r: Vec<PhotoThumbnail> = Vec::new();
        let mut k: usize = 0;
        while k < names.len()
            invariant
                k <= names@.len(),
                dates@.len() == names@.len(),
                r@.len() == k,
                forall|m: int| 0 <= m < k ==> (#[trigger] r@[m]).name@ == names@[m]@
                    && opt_view(r@[m].creation_date) == opt_view(dates@[m]),
            decreases names@.len() - k,
        {
            r.push(PhotoThumbnail { name: names[k].clone(), creation_date: clone_opt(&dates[k]) });
            k = k + 1;
        }
        assert forall|a: int, b: int| 0 <= a < b < r@.len() implies seq_lt((#[trigger] r@[a]).name@, (#[trigger] r@[b]).name@) by {
            assert(seq_lt(names@[a]@, names@[b]@));
        }
        assert forall|m: int| 0 <= m < r@.len() implies has_photo_entry(s, aid, s.len() as int,
            (#[trigger] r@[m]).name@, opt_view(r@[m].creation_date)) by {
            assert(r@[m].name@ == names@[m]@);
        }
        assert forall|j: int| 0 <= j < s.len() && (#[trigger] s[j]).album_id == aid
            implies exists|m: int| 0 <= m < r@.len() && (#[trigger] r@[m]).name@ == s[j].name by {
            let m = choose|m: int| 0 <= m < names@.len() && (#[trigger] names@[m])@ == s[j].name;
            assert(r@[m].name@ == names@[m]@);
        }
        r
    }

    pub fn album_count(&self) -> (r: usize)
        ensures
            r == self.albums().len(),
    {
        self.albums.len()
    }

    pub fn photo_count(&self) -> (r: usize)
        ensures
            r == self.photos().len(),
    {
        self.photos.len()
    }

    proof fn lemma_album_view(&self, i: int)
        requires
            0 <= i < self.albums@.len(),
        ensures
            self.albums()[i] == self.albums@[i]@,
            self.albums().len() == self.albums@.len(),
    {
    }
}

} // verus!
