//! Slash-separated paths: their segments, file names and extensions, and
//! the cache path of a thumbnail.
use vstd::prelude::*;
use crate::error::GalleryError;
use crate::text::{chars_of, push_char, string_of_range};

verus! {

/// The segment that `cur` closes: none when it is empty or `.`.
pub open spec fn flush(cur: Seq<char>) -> Seq<Seq<char>> {
    if cur.len() == 0 || cur == seq!['.'] {
        Seq::empty()
    } else {
        seq![cur]
    }
}

/// The segments of `s`, after the partial segment `cur`.
pub open spec fn segs_from(s: Seq<char>, cur: Seq<char>) -> Seq<Seq<char>>
    decreases s.len(),
{
    if s.len() == 0 {
        flush(cur)
    } else if s[0] == '/' {
        flush(cur) + segs_from(s.drop_first(), Seq::empty())
    } else {
        segs_from(s.drop_first(), cur.push(s[0]))
    }
}

/// The segments of a path: the parts between slashes, without empty parts
/// and without `.` parts.
pub open spec fn path_segments(s: Seq<char>) -> Seq<Seq<char>> {
    segs_from(s, Seq::empty())
}

/// The file name of a path: its last segment, unless there is none or it
/// is `..`.
pub open spec fn file_name_of(s: Seq<char>) -> Option<Seq<char>> {
    let segs = path_segments(s);
    if segs.len() == 0 || segs.last() == seq!['.', '.'] {
        None
    } else {
        Some(segs.last())
    }
}

/// The position of the last `.` in `s`, or -1.
pub open spec fn last_dot(s: Seq<char>) -> int
    decreases s.len(),
{
    if s.len() == 0 {
        -1
    } else if s.last() == '.' {
        s.len() - 1
    } else {
        last_dot(s.drop_last())
    }
}

/// The extension of a file name: what follows its last `.`, unless that
/// dot is the first character.
pub open spec fn extension_of(name: Seq<char>) -> Option<Seq<char>> {
    let p = last_dot(name);
    if p > 0 {
        Some(name.subrange(p + 1, name.len() as int))
    } else {
        None
    }
}

/// `b` appended to the directory `a`; an absolute `b` stands alone.
pub open spec fn join(a: Seq<char>, b: Seq<char>) -> Seq<char> {
    if b.len() > 0 && b[0] == '/' {
        b
    } else if a.len() == 0 || a.last() == '/' {
        a + b
    } else {
        a + seq!['/'] + b
    }
}

/// The cache path of a thumbnail: the cache root, the content hash, a dot
/// and the extension of the thumbnail's size.
pub open spec fn thumbnail_path(cache: Seq<char>, hash: Seq<char>, ext: Seq<char>) -> Seq<char> {
    join(cache, hash) + seq!['.'] + ext
}

proof fn lemma_segs_step(s: Seq<char>, i: int, cur: Seq<char>)
    requires
        0 <= i < s.len(),
    ensures
        segs_from(s.skip(i), cur) == if s[i] == '/' {
            flush(cur) + segs_from(s.skip(i + 1), Seq::empty())
        } else {
            segs_from(s.skip(i + 1), cur.push(s[i]))
        },
{
    assert(s.skip(i).drop_first() =~= s.skip(i + 1));
}

/// The segments of `path`.
pub fn split_path(path: &str) -> (r: Vec<String>)
    ensures
        r@.map_values(|x: String| x@) == path_segments(path@),
{
    let cs = chars_of(path);
    let mut out: Vec<String> = Vec::new();
    let mut start: usize = 0;
    let mut i: usize = 0;
    assert(cs@.skip(0) =~= cs@);
    assert(cs@.subrange(0, 0) =~= Seq::<char>::empty());
    assert(out@.map_values(|x: String| x@) =~= Seq::<Seq<char>>::empty());
    assert(Seq::<Seq<char>>::empty() + path_segments(path@) =~= path_segments(path@));
    while i < cs.len()
        invariant
            cs@ == path@,
            start <= i <= cs@.len(),
            out@.map_values(|x: String| x@) + segs_from(cs@.skip(i as int), cs@.subrange(start as int, i as int))
                == path_segments(path@),
        decreases cs@.len() - i,
    {
        proof { lemma_segs_step(cs@, i as int, cs@.subrange(start as int, i as int)); }
        if cs[i] == '/' {
            let seg = string_of_range(&cs, start, i);
            let ghost o0 = out@;
            let keep = !(i == start || (i == start + 1 && cs[start] == '.'));
            proof {
                if !keep && i == start + 1 {
                    assert(seg@ =~= seq!['.']);
                }
                if keep && seg@ == seq!['.'] {
                    assert(seg@[0] == cs@[start as int]);
                }
            }
            if keep {
                assert(flush(seg@) == seq![seg@]);
                out.push(seg);
                assert(out@.map_values(|x: String| x@) =~= o0.map_values(|x: String| x@) + flush(seg@));
            } else {
                assert(flush(seg@) =~= Seq::<Seq<char>>::empty());
                assert(out@.map_values(|x: String| x@) =~= o0.map_values(|x: String| x@) + flush(seg@));
            }
            start = i + 1;
            assert(cs@.subrange(start as int, i + 1) =~= Seq::<char>::empty());
            assert(out@.map_values(|x: String| x@) + segs_from(cs@.skip(i + 1), Seq::empty())
                =~= o0.map_values(|x: String| x@) + (flush(seg@) + segs_from(cs@.skip(i + 1), Seq::empty())));
        } else {
            assert(cs@.subrange(start as int, i + 1) =~= cs@.subrange(start as int, i as int).push(cs@[i as int]));
        }
        i = i + 1;
    }
    let seg = string_of_range(&cs, start, i);
    let ghost o0 = out@;
    assert(cs@.skip(i as int) =~= Seq::<char>::empty());
    let keep = !(i == start || (i == start + 1 && cs[start] == '.'));
    proof {
        if !keep && i == start + 1 {
            assert(seg@ =~= seq!['.']);
        }
        if keep && seg@ == seq!['.'] {
            assert(seg@[0] == cs@[start as int]);
        }
    }
    if keep {
        proof {
            if seg@ == seq!['.'] {
                assert(seg@.len() == 1);
                assert(seg@[0] == '.');
                assert(cs@[start as int] == '.');
            }
        }
        assert(flush(seg@) == seq![seg@]);
        out.push(seg);
        assert(out@.map_values(|x: String| x@) =~= o0.map_values(|x: String| x@) + flush(seg@));
    } else {
        assert(out@.map_values(|x: String| x@) =~= o0.map_values(|x: String| x@) + flush(seg@));
    }
    out
}

/// The file name of `path`; `InvalidFileName` when it has none.
pub fn get_file_name_string(path: &str) -> (r: Result<String, GalleryError>)
    ensures
        match file_name_of(path@) {
            Some(n) => r is Ok && r->Ok_0@ == n,
            None => r is Err && r->Err_0 is InvalidFileName,
        },
{
    let mut segs = split_path(path);
    let ghost v = segs@.map_values(|x: String| x@);
    match segs.pop() {
        None => {
            assert(v.len() == 0);
            Err(GalleryError::InvalidFileName)
        },
        Some(last) => {
            assert(v.last() == last@);
            let cs = chars_of(last.as_str());
            if cs.len() == 2 && cs[0] == '.' && cs[1] == '.' {
                assert(last@ =~= seq!['.', '.']);
                Err(GalleryError::InvalidFileName)
            } else {
                proof {
                    if last@ == seq!['.', '.'] {
                        assert(cs@[0] == '.' && cs@[1] == '.');
                    }
                }
                Ok(last)
            }
        },
    }
}

/// The extension of the file name `name`.
pub fn file_extension(name: &str) -> (r: Option<String>)
    ensures
        opt_seq(r) == extension_of(name@),
{
    let cs = chars_of(name);
    let mut p: usize = cs.len();
    assert(cs@.subrange(0, p as int) =~= cs@);
    while p > 0 && cs[p - 1] != '.'
        invariant
            cs@ == name@,
            p <= cs@.len(),
            last_dot(cs@) == last_dot(cs@.subrange(0, p as int)),
        decreases p,
    {
        assert(cs@.subrange(0, p - 1) =~= cs@.subrange(0, p as int).drop_last());
        p = p - 1;
    }
    if p > 1 {
        assert(last_dot(cs@.subrange(0, p as int)) == p - 1);
        Some(string_of_range(&cs, p, cs.len()))
    } else {
        proof {
            if p == 1 {
                assert(last_dot(cs@.subrange(0, 1)) == 0);
            } else {
                assert(last_dot(cs@.subrange(0, 0)) == -1);
            }
        }
        None
    }
}

pub open spec fn opt_seq(o: Option<String>) -> Option<Seq<char>> {
    match o {
        Some(s) => Some(s@),
        None => None,
    }
}

/// `b` appended to the directory `a`.
pub fn join_path(a: &str, b: &str) -> (r: String)
    ensures
        r@ == join(a@, b@),
{
    let x = chars_of(a);
    let y = chars_of(b);
    let mut r = string_of_range(&x, 0, x.len());
    assert(x@.subrange(0, x@.len() as int) =~= x@);
    if y.len() > 0 && y[0] == '/' {
        let r2 = string_of_range(&y, 0, y.len());
        assert(y@.subrange(0, y@.len() as int) =~= y@);
        return r2;
    }
    if !(x.len() == 0 || x[x.len() - 1] == '/') {
        push_char(&mut r, '/');
    }
    let mut i: usize = 0;
    let ghost r0 = r@;
    while i < y.len()
        invariant
            y@ == b@,
            i <= y@.len(),
            r@ == r0 + y@.subrange(0, i as int),
        decreases y@.len() - i,
    {
        push_char(&mut r, y[i]);
        assert(y@.subrange(0, i + 1) =~= y@.subrange(0, i as int).push(y@[i as int]));
        i = i + 1;
    }
    assert(y@.subrange(0, y@.len() as int) =~= y@);
    proof {
        if !(x@.len() == 0 || x@.last() == '/') {
            assert(r0 == x@ + seq!['/']);
        }
    }
    r
}

} // verus!
