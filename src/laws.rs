//! Properties of indexing that relate several steps of a walk.
use vstd::prelude::*;
use crate::models::{AlbumView, PhotoView};
use crate::store::{album_index, albums_wf, is_child, photo_index, photos_wf};

verus! {

/// The albums after entering the directory `name` under the album `parent`:
/// unchanged when its album exists, else with a new album `id` added.
pub open spec fn album_after_enter(s: Seq<AlbumView>, parent: Seq<char>, name: Seq<char>, id: Seq<char>) -> Seq<AlbumView> {
    if album_index(s, Some(parent), name) is Some {
        s
    } else {
        s.push(AlbumView { id: id, name: name, parent: Some(parent) })
    }
}

/// The photos after recording `p`: unchanged when its album already holds
/// a photo of that name, else with `p` added.
pub open spec fn photo_after_record(s: Seq<PhotoView>, p: PhotoView) -> Seq<PhotoView> {
    if photo_index(s, p.album_id, p.name) is Some {
        s
    } else {
        s.push(p)
    }
}

/// Entering the same directory again, as a second walk over an unchanged
/// tree does, adds no album.
pub proof fn lemma_reenter_adds_no_album(s: Seq<AlbumView>, parent: Seq<char>, name: Seq<char>, id1: Seq<char>, id2: Seq<char>)
    ensures
        album_after_enter(album_after_enter(s, parent, name, id1), parent, name, id2)
            == album_after_enter(s, parent, name, id1),
{
    if album_index(s, Some(parent), name) is None {
        let t = s.push(AlbumView { id: id1, name: name, parent: Some(parent) });
        assert(is_child(t[s.len() as int], Some(parent), name));
    }
}

/// Recording the same file again, as a second walk over an unchanged tree
/// does, adds no photo.
pub proof fn lemma_rerecord_adds_no_photo(s: Seq<PhotoView>, p1: PhotoView, p2: PhotoView)
    requires
        p1.album_id == p2.album_id,
        p1.name == p2.name,
    ensures
        photo_after_record(photo_after_record(s, p1), p2) == photo_after_record(s, p1),
{
    if photo_index(s, p1.album_id, p1.name) is None {
        let t = s.push(p1);
        assert(t[s.len() as int].album_id == p2.album_id && t[s.len() as int].name == p2.name);
    }
}

/// In a well-formed store, the album of a directory is the only album with
/// its parent and name.
pub proof fn lemma_one_album_per_directory(s: Seq<AlbumView>, parent: Seq<char>, name: Seq<char>)
    requires
        albums_wf(s),
        album_index(s, Some(parent), name) is Some,
    ensures
        forall|i: int| 0 <= i < s.len() && (#[trigger] s[i]).parent == Some(parent) && s[i].name == name
            <==> i == album_index(s, Some(parent), name)->Some_0,
{
    let k = album_index(s, Some(parent), name)->Some_0;
    assert forall|i: int| 0 <= i < s.len() && (#[trigger] s[i]).parent == Some(parent) && s[i].name == name
        implies i == k by {
        assert(is_child(s[i], s[k].parent, s[k].name));
    }
}

/// An album, once there, is kept by every later state of the store, as the
/// store only ever adds albums.
pub proof fn lemma_album_kept(s: Seq<AlbumView>, t: Seq<AlbumView>, parent: Option<Seq<char>>, name: Seq<char>)
    requires
        s.len() <= t.len(),
        t.subrange(0, s.len() as int) == s,
        albums_wf(t),
        album_index(s, parent, name) is Some,
    ensures
        album_index(t, parent, name) == album_index(s, parent, name),
{
    let k = album_index(s, parent, name)->Some_0;
    assert(t[k] == t.subrange(0, s.len() as int)[k]);
    assert(is_child(t[k], parent, name));
    let c = choose|i: int| 0 <= i < t.len() && is_child(#[trigger] t[i], parent, name);
    assert(is_child(t[c], t[k].parent, t[k].name));
}

/// In a well-formed store, the photo of a file is the only photo with its
/// album and name.
pub proof fn lemma_one_photo_per_file(s: Seq<PhotoView>, album: Seq<char>, name: Seq<char>)
    requires
        photos_wf(s),
        photo_index(s, album, name) is Some,
    ensures
        forall|i: int| 0 <= i < s.len() && (#[trigger] s[i]).album_id == album && s[i].name == name
            <==> i == photo_index(s, album, name)->Some_0,
{
    let k = photo_index(s, album, name)->Some_0;
    assert forall|i: int| 0 <= i < s.len() && (#[trigger] s[i]).album_id == album && s[i].name == name
        implies i == k by {
        assert(s[i].album_id == s[k].album_id);
    }
}

/// A photo, once there, is kept by every later state of the store, as the
/// store only ever adds photos.
pub proof fn lemma_photo_kept(s: Seq<PhotoView>, t: Seq<PhotoView>, album: Seq<char>, name: Seq<char>)
    requires
        s.len() <= t.len(),
        t.subrange(0, s.len() as int) == s,
        photos_wf(t),
        photo_index(s, album, name) is Some,
    ensures
        photo_index(t, album, name) == photo_index(s, album, name),
{
    let k = photo_index(s, album, name)->Some_0;
    assert(t[k] == t.subrange(0, s.len() as int)[k]);
    let c = choose|i: int| 0 <= i < t.len() && (#[trigger] t[i]).album_id == album && t[i].name == name;
    assert(t[c].album_id == t[k].album_id);
}

/// The albums after a walk enters, in order, the directories `dirs`, each
/// given as its parent album and its name; the album made for the `k`-th,
/// when there was none, takes the identifier `ids[k]`. This is what a run
/// of `WalkerActor::next_directory` does to the store's albums.
pub open spec fn albums_after_walk(s: Seq<AlbumView>, dirs: Seq<(Seq<char>, Seq<char>)>, ids: Seq<Seq<char>>) -> Seq<AlbumView>
    decreases dirs.len(),
{
    if dirs.len() == 0 {
        s
    } else {
        album_after_enter(albums_after_walk(s, dirs.drop_last(), ids), dirs.last().0, dirs.last().1, ids[dirs.len() - 1])
    }
}

/// The photos after a walk records, in order, the photos `files`. This is
/// what a run of `IndexerActor::record_photo` does to the store's photos.
pub open spec fn photos_after_walk(s: Seq<PhotoView>, files: Seq<PhotoView>) -> Seq<PhotoView>
    decreases files.len(),
{
    if files.len() == 0 {
        s
    } else {
        photo_after_record(photos_after_walk(s, files.drop_last()), files.last())
    }
}

proof fn lemma_enter_keeps(s: Seq<AlbumView>, parent: Seq<char>, name: Seq<char>, id: Seq<char>, p: Seq<char>, n: Seq<char>)
    requires
        album_index(s, Some(p), n) is Some,
    ensures
        album_index(album_after_enter(s, parent, name, id), Some(p), n) is Some,
{
    let t = album_after_enter(s, parent, name, id);
    let i = album_index(s, Some(p), n)->Some_0;
    assert(t[i] == s[i]);
    assert(is_child(t[i], Some(p), n));
}

proof fn lemma_walk_keeps(s: Seq<AlbumView>, dirs: Seq<(Seq<char>, Seq<char>)>, ids: Seq<Seq<char>>, p: Seq<char>, n: Seq<char>)
    requires
        album_index(s, Some(p), n) is Some,
    ensures
        album_index(albums_after_walk(s, dirs, ids), Some(p), n) is Some,
    decreases dirs.len(),
{
    if dirs.len() > 0 {
        lemma_walk_keeps(s, dirs.drop_last(), ids, p, n);
        lemma_enter_keeps(albums_after_walk(s, dirs.drop_last(), ids), dirs.last().0, dirs.last().1, ids[dirs.len() - 1], p, n);
    }
}

/// After a walk, every directory entered has an album under its parent.
pub proof fn lemma_walk_mirrors_every_directory(s: Seq<AlbumView>, dirs: Seq<(Seq<char>, Seq<char>)>, ids: Seq<Seq<char>>)
    ensures
        forall|k: int| 0 <= k < dirs.len() ==> album_index(albums_after_walk(s, dirs, ids), Some((#[trigger] dirs[k]).0), dirs[k].1) is Some,
    decreases dirs.len(),
{
    if dirs.len() > 0 {
        let d = dirs.drop_last();
        let before = albums_after_walk(s, d, ids);
        let last = dirs.last();
        lemma_walk_mirrors_every_directory(s, d, ids);
        if album_index(before, Some(last.0), last.1) is None {
            let t = before.push(AlbumView { id: ids[dirs.len() - 1], name: last.1, parent: Some(last.0) });
            assert(is_child(t[before.len() as int], Some(last.0), last.1));
        }
        assert forall|k: int| 0 <= k < dirs.len() implies album_index(albums_after_walk(s, dirs, ids), Some((#[trigger] dirs[k]).0), dirs[k].1) is Some by {
            if k < dirs.len() - 1 {
                assert(dirs[k] == d[k]);
                lemma_enter_keeps(before, last.0, last.1, ids[dirs.len() - 1], dirs[k].0, dirs[k].1);
            }
        }
    }
}

proof fn lemma_walk_of_present_is_noop(t: Seq<AlbumView>, dirs: Seq<(Seq<char>, Seq<char>)>, ids: Seq<Seq<char>>)
    requires
        forall|k: int| 0 <= k < dirs.len() ==> album_index(t, Some((#[trigger] dirs[k]).0), dirs[k].1) is Some,
    ensures
        albums_after_walk(t, dirs, ids) == t,
    decreases dirs.len(),
{
    if dirs.len() > 0 {
        let d = dirs.drop_last();
        assert forall|k: int| 0 <= k < d.len() implies album_index(t, Some((#[trigger] d[k]).0), d[k].1) is Some by {
            assert(d[k] == dirs[k]);
        }
        lemma_walk_of_present_is_noop(t, d, ids);
        assert(album_index(t, Some(dirs[dirs.len() - 1].0), dirs[dirs.len() - 1].1) is Some);
    }
}

/// Walking the same directories a second time, over the albums the first
/// walk left, adds no album, whatever identifiers it would have drawn.
pub proof fn lemma_walk_twice_adds_no_album(s: Seq<AlbumView>, dirs: Seq<(Seq<char>, Seq<char>)>, ids1: Seq<Seq<char>>, ids2: Seq<Seq<char>>)
    ensures
        albums_after_walk(albums_after_walk(s, dirs, ids1), dirs, ids2) == albums_after_walk(s, dirs, ids1),
{
    lemma_walk_mirrors_every_directory(s, dirs, ids1);
    lemma_walk_of_present_is_noop(albums_after_walk(s, dirs, ids1), dirs, ids2);
}

/// After a walk that keeps the store well formed, every directory entered
/// has exactly one album with its parent and name.
pub proof fn lemma_walk_gives_one_album_per_directory(s: Seq<AlbumView>, dirs: Seq<(Seq<char>, Seq<char>)>, ids: Seq<Seq<char>>, k: int)
    requires
        0 <= k < dirs.len(),
        albums_wf(albums_after_walk(s, dirs, ids)),
    ensures
        ({
            let t = albums_after_walk(s, dirs, ids);
            &&& album_index(t, Some(dirs[k].0), dirs[k].1) is Some
            &&& forall|i: int| 0 <= i < t.len() && (#[trigger] t[i]).parent == Some(dirs[k].0) && t[i].name == dirs[k].1
                <==> i == album_index(t, Some(dirs[k].0), dirs[k].1)->Some_0
        }),
{
    lemma_walk_mirrors_every_directory(s, dirs, ids);
    assert(album_index(albums_after_walk(s, dirs, ids), Some(dirs[k].0), dirs[k].1) is Some);
    lemma_one_album_per_directory(albums_after_walk(s, dirs, ids), dirs[k].0, dirs[k].1);
}

proof fn lemma_record_keeps(s: Seq<PhotoView>, p: PhotoView, album: Seq<char>, name: Seq<char>)
    requires
        photo_index(s, album, name) is Some,
    ensures
        photo_index(photo_after_record(s, p), album, name) is Some,
{
    let t = photo_after_record(s, p);
    let i = photo_index(s, album, name)->Some_0;
    assert(t[i] == s[i]);
}

/// After a walk, every file recorded has a photo in its album.
pub proof fn lemma_walk_records_every_file(s: Seq<PhotoView>, files: Seq<PhotoView>)
    ensures
        forall|k: int| 0 <= k < files.len() ==> photo_index(photos_after_walk(s, files), (#[trigger] files[k]).album_id, files[k].name) is Some,
    decreases files.len(),
{
    if files.len() > 0 {
        let d = files.drop_last();
        let before = photos_after_walk(s, d);
        let last = files.last();
        lemma_walk_records_every_file(s, d);
        if photo_index(before, last.album_id, last.name) is None {
            let t = before.push(last);
            assert(t[before.len() as int].album_id == last.album_id);
        }
        assert forall|k: int| 0 <= k < files.len() implies photo_index(photos_after_walk(s, files), (#[trigger] files[k]).album_id, files[k].name) is Some by {
            if k < files.len() - 1 {
                assert(files[k] == d[k]);
                lemma_record_keeps(before, last, files[k].album_id, files[k].name);
            }
        }
    }
}

/// Recording, a second time, files with the same albums and names as a
/// first walk recorded adds no photo, whatever their other fields.
pub proof fn lemma_walk_twice_adds_no_photo(s: Seq<PhotoView>, files1: Seq<PhotoView>, files2: Seq<PhotoView>)
    requires
        files1.len() == files2.len(),
        forall|k: int| 0 <= k < files1.len() ==> (#[trigger] files1[k]).album_id == files2[k].album_id
            && files1[k].name == files2[k].name,
    ensures
        photos_after_walk(photos_after_walk(s, files1), files2) == photos_after_walk(s, files1),
{
    let t = photos_after_walk(s, files1);
    lemma_walk_records_every_file(s, files1);
    lemma_record_of_present_is_noop(t, files1, files2);
}

proof fn lemma_record_of_present_is_noop(t: Seq<PhotoView>, files1: Seq<PhotoView>, files2: Seq<PhotoView>)
    requires
        files1.len() == files2.len(),
        forall|k: int| 0 <= k < files1.len() ==> (#[trigger] files1[k]).album_id == files2[k].album_id
            && files1[k].name == files2[k].name,
        forall|k: int| 0 <= k < files1.len() ==> photo_index(t, (#[trigger] files1[k]).album_id, files1[k].name) is Some,
    ensures
        photos_after_walk(t, files2) == t,
    decreases files2.len(),
{
    if files2.len() > 0 {
        let a = files1.drop_last();
        let b = files2.drop_last();
        assert forall|k: int| 0 <= k < a.len() implies (#[trigger] a[k]).album_id == b[k].album_id && a[k].name == b[k].name by {
            assert(a[k] == files1[k]);
            assert(b[k] == files2[k]);
        }
        assert forall|k: int| 0 <= k < a.len() implies photo_index(t, (#[trigger] a[k]).album_id, a[k].name) is Some by {
            assert(a[k] == files1[k]);
        }
        lemma_record_of_present_is_noop(t, a, b);
        let n = files1.len() - 1;
        assert(files1[n].album_id == files2[n].album_id && files1[n].name == files2[n].name);
        assert(photo_index(t, files1[n].album_id, files1[n].name) is Some);
    }
}

/// After a walk that keeps the store well formed, every file recorded has
/// exactly one photo with its album and name.
pub proof fn lemma_walk_gives_one_photo_per_file(s: Seq<PhotoView>, files: Seq<PhotoView>, k: int)
    requires
        0 <= k < files.len(),
        photos_wf(photos_after_walk(s, files)),
    ensures
        ({
            let t = photos_after_walk(s, files);
            &&& photo_index(t, files[k].album_id, files[k].name) is Some
            &&& forall|i: int| 0 <= i < t.len() && (#[trigger] t[i]).album_id == files[k].album_id && t[i].name == files[k].name
                <==> i == photo_index(t, files[k].album_id, files[k].name)->Some_0
        }),
{
    lemma_walk_records_every_file(s, files);
    assert(photo_index(photos_after_walk(s, files), files[k].album_id, files[k].name) is Some);
    lemma_one_photo_per_file(photos_after_walk(s, files), files[k].album_id, files[k].name);
}

} // verus!
