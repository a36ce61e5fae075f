//! The tree walker, as a state machine. The caller lists the directory the
//! walker is in and runs the file tasks it hands out; the walker decides
//! which album each directory is mirrored to, creating it when absent, and
//! which directory comes next. Directories are walked depth first, and the
//! files of a directory are handed out, to be indexed in full, before any
//! of its subdirectories is entered. A file that fails is the caller's to
//! report and skip; a directory that cannot be listed or mirrored ends the
//! whole walk.
use vstd::prelude::*;
use crate::config::Config;
use crate::error::GalleryError;
use crate::indexer::IndexFile;
use crate::models::{AlbumView, ChangeState, CreateAlbum, GetAlbumId, GetRootAlbumId, STATE_FINISHED, STATE_RUNNING, JobView};
use crate::paths::{file_name_of, get_file_name_string};
use crate::laws::album_after_enter;
use crate::store::{album_index, root_index, DbExecutor};

verus! {

/// Starts a walk for the job `job_id`.
pub struct StartWalking {
    pub job_id: String,
}

/// A directory being walked, and the album it is mirrored to.
pub struct Directory {
    pub path: String,
    pub album_id: String,
}

/// A subdirectory still to be walked, and the album of its parent.
struct Frame {
    path: String,
    parent: String,
}

pub struct FrameView {
    pub path: Seq<char>,
    pub parent: Seq<char>,
}

pub struct WalkerActor {
    config: Config,
    job_id: String,
    pending: Vec<Frame>,
}

/// A job with the identifier `id` is recorded.
pub open spec fn job_exists(jobs: Seq<JobView>, id: Seq<char>) -> bool {
    exists|k: int| 0 <= k < jobs.len() && (#[trigger] jobs[k]).id == id
}

/// `final_jobs` is `jobs` with the state of job `id` set to `state`.
pub open spec fn state_set(jobs: Seq<JobView>, final_jobs: Seq<JobView>, id: Seq<char>, state: Seq<char>) -> bool {
    exists|k: int| 0 <= k < jobs.len() && (#[trigger] jobs[k]).id == id
        && final_jobs == jobs.update(k, JobView { state: state, ..jobs[k] })
}

impl WalkerActor {
    pub closed spec fn pending(&self) -> Seq<FrameView> {
        self.pending@.map_values(|f: Frame| FrameView { path: f.path@, parent: f.parent@ })
    }

    pub closed spec fn job(&self) -> Seq<char> {
        self.job_id@
    }

    pub closed spec fn gallery_name(&self) -> Seq<char> {
        self.config.gallery_name@
    }

    pub fn new(config: Config, msg: StartWalking) -> (r: WalkerActor)
        ensures
            r.pending().len() == 0,
            r.job() == msg.job_id@,
            r.gallery_name() == config.gallery_name@,
    {
        let r = WalkerActor { config, job_id: msg.job_id, pending: Vec::new() };
        assert(r.pending() =~= Seq::<FrameView>::empty());
        r
    }

    /// Marks the job running and enters the root directory `storage_path`,
    /// mirrored to the root album, which is created, named after the
    /// gallery, when there is none.
    pub fn start(&mut self, store: &mut DbExecutor, storage_path: String) -> (r: Result<Directory, GalleryError>)
        requires
            old(store).wf(),
        ensures
            final(store).wf(),
            final(self).pending() == old(self).pending(),
            final(self).job() == old(self).job(),
            final(self).gallery_name() == old(self).gallery_name(),
            final(store).photos() == old(store).photos(),
            r is Ok ==> state_set(old(store).jobs(), final(store).jobs(), old(self).job(), STATE_RUNNING@),
            !job_exists(old(store).jobs(), old(self).job()) ==> r is Err && r->Err_0 is NotFound,
            job_exists(old(store).jobs(), old(self).job()) && root_index(old(store).albums()) is Some ==> r is Ok,
            match r {
                Ok(d) => {
                    &&& d.path@ == storage_path@
                    &&& root_index(final(store).albums()) is Some
                    &&& final(store).albums()[root_index(final(store).albums())->Some_0].id == d.album_id@
                    &&& match root_index(old(store).albums()) {
                        Some(_) => final(store).albums() == old(store).albums(),
                        None => final(store).albums() == old(store).albums().push(
                            AlbumView { id: d.album_id@, name: old(self).gallery_name(), parent: None }),
                    }
                },
                Err(_) => final(store).albums() == old(store).albums(),
            },
    {
        match store.change_state(ChangeState { job_id: self.job_id.clone(), new_state: String::from_str(STATE_RUNNING) }) {
            Ok(_) => {},
            Err(e) => return Err(e),
        }
        let ghost s = store.albums();
        let album_id = match store.get_root_album_id(&GetRootAlbumId) {
            Some(id) => id,
            None => {
                match store.create_album(CreateAlbum { name: self.config.gallery_name.clone(), parent_album_id: None }) {
                    Ok(id) => {
                        proof { lemma_pushed_is_found(s, id@, self.config.gallery_name@, None); }
                        id
                    },
                    Err(e) => return Err(e),
                }
            },
        };
        Ok(Directory { path: storage_path, album_id })
    }

    /// Takes the listing of the directory `dir`: every file becomes a task
    /// for the indexer, in album `dir.album_id`, and every subdirectory is
    /// queued so that they are entered in the order given.
    pub fn handle_listing(&mut self, dir: &Directory, files: Vec<String>, dirs: Vec<String>) -> (r: Vec<IndexFile>)
        ensures
            final(self).job() == old(self).job(),
            final(self).gallery_name() == old(self).gallery_name(),
            r@.len() == files@.len(),
            forall|k: int| 0 <= k < r@.len() ==> (#[trigger] r@[k]).path@ == files@[k]@ && r@[k].parent@ == dir.album_id@,
            final(self).pending().len() == old(self).pending().len() + dirs@.len(),
            final(self).pending().subrange(0, old(self).pending().len() as int) == old(self).pending(),
            forall|k: int| 0 <= k < dirs@.len() ==> (#[trigger] final(self).pending()[final(self).pending().len() - 1 - k])
                == (FrameView { path: dirs@[k]@, parent: dir.album_id@ }),
    {
        let ghost p0 = self.pending();
        let mut tasks: Vec<IndexFile> = Vec::new();
        let mut files = files;
        let n = files.len();
        let ghost fs = files@;
        while files.len() > 0
            invariant
                files@.len() <= n,
                files@ == fs.subrange(0, files@.len() as int),
                fs.len() == n,
                tasks@.len() + files@.len() == n,
                forall|k: int| 0 <= k < tasks@.len() ==> (#[trigger] tasks@[k]).path@ == fs[n - 1 - k]@
                    && tasks@[k].parent@ == dir.album_id@,
            decreases files@.len(),
        {
            let f = files.pop().unwrap();
            tasks.push(IndexFile { path: f, parent: dir.album_id.clone() });
        }
        let mut r: Vec<IndexFile> = Vec::new();
        while tasks.len() > 0
            invariant
                fs.len() == n,
                tasks@.len() + r@.len() == n,
                forall|k: int| 0 <= k < tasks@.len() ==> (#[trigger] tasks@[k]).path@ == fs[n - 1 - k]@
                    && tasks@[k].parent@ == dir.album_id@,
                forall|k: int| 0 <= k < r@.len() ==> (#[trigger] r@[k]).path@ == fs[k]@ && r@[k].parent@ == dir.album_id@,
            decreases tasks@.len(),
        {
            let t = tasks.pop().unwrap();
            r.push(t);
        }
        let mut dirs = dirs;
        let m = dirs.len();
        let ghost ds = dirs@;
        while dirs.len() > 0
            invariant
                dirs@.len() <= m,
                dirs@ == ds.subrange(0, dirs@.len() as int),
                ds.len() == m,
                self.pending().len() == p0.len() + m - dirs@.len(),
                self.pending().subrange(0, p0.len() as int) == p0,
                forall|k: int| dirs@.len() <= k < m ==> (#[trigger] self.pending()[p0.len() + m - 1 - k])
                    == (FrameView { path: ds[k]@, parent: dir.album_id@ }),
                self.job() == old(self).job(),
                self.gallery_name() == old(self).gallery_name(),
            decreases dirs@.len(),
        {
            let ghost q0 = self.pending();
            let ghost v0 = self.pending@;
            let d = dirs.pop().unwrap();
            assert(d == ds[dirs@.len() as int]);
            let fr = Frame { path: d, parent: dir.album_id.clone() };
            assert(FrameView { path: fr.path@, parent: fr.parent@ } == FrameView { path: ds[dirs@.len() as int]@, parent: dir.album_id@ });
            self.pending.push(fr);
            assert(self.pending@ == v0.push(fr));
            assert(self.pending() =~= q0.push(FrameView { path: ds[dirs@.len() as int]@, parent: dir.album_id@ }));
            assert(self.pending().subrange(0, p0.len() as int) =~= q0.subrange(0, p0.len() as int));
        }
        r
    }

    /// Enters the next queued directory, mirrored to the album of its name
    /// under its parent's album, which is created when absent. When none is
    /// left, marks the job finished and gives `None`.
    pub fn next_directory(&mut self, store: &mut DbExecutor) -> (r: Result<Option<Directory>, GalleryError>)
        requires
            old(store).wf(),
        ensures
            final(store).wf(),
            final(store).photos() == old(store).photos(),
            final(self).job() == old(self).job(),
            final(self).gallery_name() == old(self).gallery_name(),
            old(self).pending().len() == 0 ==> {
                &&& final(store).albums() == old(store).albums()
                &&& final(self).pending() == old(self).pending()
                &&& r is Ok ==> r->Ok_0 is None && state_set(old(store).jobs(), final(store).jobs(), old(self).job(), STATE_FINISHED@)
                &&& job_exists(old(store).jobs(), old(self).job()) <==> r is Ok
            },
            old(self).pending().len() > 0 ==> ({
                let f = old(self).pending().last();
                &&& final(self).pending() == old(self).pending().drop_last()
                &&& final(store).jobs() == old(store).jobs()
                &&& file_name_of(f.path) is None ==> r is Err && r->Err_0 is InvalidFileName
                    && final(store).albums() == old(store).albums()
                &&& match file_name_of(f.path) {
                    None => true,
                    Some(n) => match r {
                        Ok(d) => {
                            &&& d is Some
                            &&& d->Some_0.path@ == f.path
                            &&& final(store).albums() == album_after_enter(old(store).albums(), f.parent, n, d->Some_0.album_id@)
                            &&& album_index(final(store).albums(), Some(f.parent), n) is Some
                            &&& final(store).albums()[album_index(final(store).albums(), Some(f.parent), n)->Some_0].id
                                == d->Some_0.album_id@
                            &&& match album_index(old(store).albums(), Some(f.parent), n) {
                                Some(_) => final(store).albums() == old(store).albums(),
                                None => final(store).albums() == old(store).albums().push(
                                    AlbumView { id: d->Some_0.album_id@, name: n, parent: Some(f.parent) }),
                            }
                        },
                        Err(_) => final(store).albums() == old(store).albums()
                            && album_index(old(store).albums(), Some(f.parent), n) is None,
                    },
                }
            }),
    {
        let ghost q0 = self.pending();
        let frame = match self.pending.pop() {
            None => {
                let ghost j0 = store.jobs();
                return match store.change_state(ChangeState { job_id: self.job_id.clone(), new_state: String::from_str(STATE_FINISHED) }) {
                    Ok(_) => Ok(None),
                    Err(e) => Err(e),
                };
            },
            Some(f) => f,
        };
        assert(self.pending() =~= q0.drop_last());
        let name = match get_file_name_string(frame.path.as_str()) {
            Ok(n) => n,
            Err(e) => return Err(e),
        };
        let ghost s = store.albums();
        let ghost n = name@;
        let ghost parent = frame.parent@;
        let album_id = match store.get_album_id(&GetAlbumId { name: name.clone(), parent_album_id: frame.parent.clone() }) {
            Some(id) => id,
            None => {
                match store.create_album(CreateAlbum { name, parent_album_id: Some(frame.parent) }) {
                    Ok(id) => {
                        proof { lemma_pushed_is_found(s, id@, n, Some(parent)); }
                        id
                    },
                    Err(e) => return Err(e),
                }
            },
        };
        Ok(Some(Directory { path: frame.path, album_id }))
    }
}

/// After adding an album that was absent, looking it up finds the new one.
pub proof fn lemma_pushed_is_found(s: Seq<AlbumView>, id: Seq<char>, name: Seq<char>, parent: Option<Seq<char>>)
    requires
        album_index(s, parent, name) is None,
        crate::store::albums_wf(s.push(AlbumView { id: id, name: name, parent: parent })),
    ensures
        ({
            let t = s.push(AlbumView { id: id, name: name, parent: parent });
            &&& album_index(t, parent, name) == Some(s.len() as int)
            &&& t[s.len() as int].id == id
        }),
{
    let t = s.push(AlbumView { id: id, name: name, parent: parent });
    assert(crate::store::is_child(t[s.len() as int], parent, name));
    let c = choose|i: int| 0 <= i < t.len() && crate::store::is_child(#[trigger] t[i], parent, name);
    if c < s.len() {
        assert(t[c] == s[c]);
        assert(crate::store::is_child(s[c], parent, name));
    }
}

} // verus!
