//! A model of the directory trees the installer works on.
//!
//! A `FileMap` is the listing of one directory tree: each entry carries a
//! file's path relative to the tree's root, its content, and whether it is
//! executable.  The installer's file operations are defined on this listing;
//! the surrounding application reads a real directory into a listing and
//! writes a listing's changes back to disk.

use vstd::prelude::*;

use crate::bytes::{bytes_eq, chars_of, chars_string, copy_bytes};

verus! {

/// One file of a directory tree: relative path, content, executable bit.
pub struct FileEntry {
    pub path: Vec<u8>,
    pub content: Vec<u8>,
    pub executable: bool,
}

/// The listing of a directory tree.
pub struct FileMap {
    entries: Vec<FileEntry>,
}

/// The map from path to content and executable bit that a listing denotes;
/// a later entry wins over an earlier one with the same path.
pub open spec fn map_of(es: Seq<FileEntry>) -> Map<Seq<u8>, (Seq<u8>, bool)>
    decreases es.len(),
{
    if es.len() == 0 {
        Map::empty()
    } else {
        map_of(es.drop_last()).insert(
            es.last().path@,
            (es.last().content@, es.last().executable),
        )
    }
}

/// No two entries name the same path.
pub open spec fn unique_paths(es: Seq<FileEntry>) -> bool {
    forall|i: int, j: int| 0 <= i < j < es.len() ==> es[i].path@ != es[j].path@
}

pub proof fn lemma_map_of_contains(es: Seq<FileEntry>, p: Seq<u8>)
    ensures
        map_of(es).contains_key(p) <==> exists|i: int|
            0 <= i < es.len() && #[trigger] es[i].path@ == p,
    decreases es.len(),
{
    if es.len() > 0 {
        lemma_map_of_contains(es.drop_last(), p);
        if map_of(es).contains_key(p) {
            if es.last().path@ == p {
                assert(es[es.len() - 1].path@ == p);
            } else {
                let i = choose|i: int| 0 <= i < es.drop_last().len() && #[trigger] es.drop_last()[i].path@ == p;
                assert(es[i].path@ == p);
            }
        }
        if exists|i: int| 0 <= i < es.len() && #[trigger] es[i].path@ == p {
            let i = choose|i: int| 0 <= i < es.len() && #[trigger] es[i].path@ == p;
            if i < es.len() - 1 {
                assert(es.drop_last()[i].path@ == p);
            }
        }
    }
}

pub proof fn lemma_map_of_index(es: Seq<FileEntry>, i: int)
    requires
        unique_paths(es),
        0 <= i < es.len(),
    ensures
        map_of(es).contains_key(es[i].path@),
        map_of(es)[es[i].path@] == (es[i].content@, es[i].executable),
    decreases es.len(),
{
    if i == es.len() - 1 {
    } else {
        assert(unique_paths(es.drop_last()));
        assert(es.drop_last()[i] == es[i]);
        lemma_map_of_index(es.drop_last(), i);
        assert(es[i].path@ != es.last().path@);
    }
}

pub proof fn lemma_map_of_update(es: Seq<FileEntry>, i: int, e: FileEntry)
    requires
        unique_paths(es),
        0 <= i < es.len(),
        e.path@ == es[i].path@,
    ensures
        map_of(es.update(i, e)) == map_of(es).insert(e.path@, (e.content@, e.executable)),
    decreases es.len(),
{
    let es2 = es.update(i, e);
    if i == es.len() - 1 {
        assert(es2.drop_last() =~= es.drop_last());
        assert(es2.last() == e);
        assert(map_of(es2) == map_of(es.drop_last()).insert(e.path@, (e.content@, e.executable)));
        assert(map_of(es).insert(e.path@, (e.content@, e.executable)) =~= map_of(
            es.drop_last(),
        ).insert(e.path@, (e.content@, e.executable)));
    } else {
        assert(unique_paths(es.drop_last()));
        assert(es.drop_last()[i] == es[i]);
        lemma_map_of_update(es.drop_last(), i, e);
        assert(es2.drop_last() =~= es.drop_last().update(i, e));
        assert(es2.last() == es.last());
        assert(es[i].path@ != es.last().path@);
        assert(map_of(es2) == map_of(es.drop_last()).insert(
            e.path@,
            (e.content@, e.executable),
        ).insert(es.last().path@, (es.last().content@, es.last().executable)));
        assert(map_of(es.drop_last()).insert(e.path@, (e.content@, e.executable)).insert(
            es.last().path@,
            (es.last().content@, es.last().executable),
        ) =~= map_of(es.drop_last()).insert(
            es.last().path@,
            (es.last().content@, es.last().executable),
        ).insert(e.path@, (e.content@, e.executable)));
    }
}

impl View for FileMap {
    type V = Map<Seq<u8>, (Seq<u8>, bool)>;

    closed spec fn view(&self) -> Map<Seq<u8>, (Seq<u8>, bool)> {
        map_of(self.entries@)
    }
}

impl FileMap {
    /// The listing is well formed: no path occurs twice.
    pub closed spec fn wf(&self) -> bool {
        unique_paths(self.entries@)
    }

    /// An empty listing.
    pub fn new() -> (fs: FileMap)
        ensures
            fs.wf(),
            fs@ == Map::<Seq<u8>, (Seq<u8>, bool)>::empty(),
    {
        FileMap { entries: Vec::new() }
    }

    fn index_of(&self, path: &Vec<u8>) -> (r: Option<usize>)
        ensures
            match r {
                Some(i) => i < self.entries@.len() && self.entries@[i as int].path@ == path@,
                None => forall|j: int|
                    0 <= j < self.entries@.len() ==> self.entries@[j].path@ != path@,
            },
    {
        let mut i: usize = 0;
        while i < self.entries.len()
            invariant
                i <= self.entries@.len(),
                forall|j: int| 0 <= j < i ==> self.entries@[j].path@ != path@,
            decreases self.entries@.len() - i,
        {
            if bytes_eq(&self.entries[i].path, path) {
                return Some(i);
            }
            i += 1;
        }
        None
    }

    /// Whether the listing holds a file at `path`.
    pub fn contains_path(&self, path: &Vec<u8>) -> (r: bool)
        ensures
            r == self@.contains_key(path@),
    {
        proof {
            lemma_map_of_contains(self.entries@, path@);
        }
        self.index_of(path).is_some()
    }

    /// The entry at `path`, if the listing has one.
    pub fn get(&self, path: &Vec<u8>) -> (r: Option<&FileEntry>)
        requires
            self.wf(),
        ensures
            match r {
                Some(e) => self@.contains_key(path@) && e.path@ == path@ && self@[path@] == (
                    e.content@,
                    e.executable,
                ),
                None => !self@.contains_key(path@),
            },
    {
        proof {
            lemma_map_of_contains(self.entries@, path@);
        }
        match self.index_of(path) {
            Some(i) => {
                proof {
                    lemma_map_of_index(self.entries@, i as int);
                }
                Some(&self.entries[i])
            },
            None => None,
        }
    }

    /// Puts a file at `path`, overwriting what was there.
    pub fn set(&mut self, path: Vec<u8>, content: Vec<u8>, executable: bool)
        requires
            old(self).wf(),
        ensures
            final (self).wf(),
            final (self)@ == old(self)@.insert(path@, (content@, executable)),
    {
        let idx = self.index_of(&path);
        let e = FileEntry { path, content, executable };
        match idx {
            Some(i) => {
                proof {
                    lemma_map_of_update(self.entries@, i as int, e);
                }
                self.entries.set(i, e);
                proof {
                    assert forall|x: int, y: int|
                        0 <= x < y < self.entries@.len() implies self.entries@[x].path@
                        != self.entries@[y].path@ by {
                        assert(old(self).entries@[x].path@ != old(self).entries@[y].path@);
                    }
                }
            },
            None => {
                self.entries.push(e);
                proof {
                    let es = self.entries@;
                    assert(es.drop_last() =~= old(self).entries@);
                    assert forall|x: int, y: int|
                        0 <= x < y < es.len() implies es[x].path@ != es[y].path@ by {
                        if y < es.len() - 1 {
                            assert(old(self).entries@[x].path@ != old(self).entries@[y].path@);
                        } else {
                            assert(old(self).entries@[x].path@ != e.path@);
                        }
                    }
                }
            },
        }
    }

}

} // verus!

use vstd::string::StringExecFns;

verus! {

/// The error a failed copy reports: the message names both paths.
pub open spec fn copy_error_spec(src_path: Seq<u8>, dst_path: Seq<u8>) -> Seq<char> {
    "Failed to copy "@ + chars_of(src_path) + " -> "@ + chars_of(dst_path)
        + ": source file is missing"@
}

fn copy_error(src_path: &Vec<u8>, dst_path: &Vec<u8>) -> (e: String)
    ensures
        e@ == copy_error_spec(src_path@, dst_path@),
{
    let mut m = String::from_str("Failed to copy ");
    let sp = chars_string(src_path);
    m.append(sp.as_str());
    m.append(" -> ");
    let dp = chars_string(dst_path);
    m.append(dp.as_str());
    m.append(": source file is missing");
    proof {
        assert(m@ =~= copy_error_spec(src_path@, dst_path@));
    }
    m
}

/// Copies the file at `src_path` of `src` to `dst_path` of `dst`, but only
/// if the destination does not already have one; the copy carries content
/// and executable bit, as a file copy does.  Returns whether it copied.
pub fn copy_file_if_not_exists(
    src: &FileMap,
    src_path: &Vec<u8>,
    dst: &mut FileMap,
    dst_path: &Vec<u8>,
) -> (r: Result<bool, String>)
    requires
        src.wf(),
        old(dst).wf(),
    ensures
        final (dst).wf(),
        old(dst)@.contains_key(dst_path@) ==> (r matches Ok(b) && b == false && final (dst)@
            == old(dst)@),
        !old(dst)@.contains_key(dst_path@) && src@.contains_key(src_path@) ==> (r matches Ok(b)
            && b == true && final (dst)@ == old(dst)@.insert(dst_path@, src@[src_path@])),
        !old(dst)@.contains_key(dst_path@) && !src@.contains_key(src_path@) ==> (r matches Err(e)
            && e@ == copy_error_spec(src_path@, dst_path@) && final (dst)@ == old(dst)@),
{
    if dst.contains_path(dst_path) {
        return Ok(false);
    }
    match src.get(src_path) {
        None => Err(copy_error(src_path, dst_path)),
        Some(e) => {
            let content = copy_bytes(&e.content);
            let executable = e.executable;
            dst.set(copy_bytes(dst_path), content, executable);
            Ok(true)
        },
    }
}

/// Installs the agent binary: copies it unless the destination already has
/// it, and marks the installed copy executable.  Installing into an
/// already-populated destination is a no-op: content and permissions stay
/// untouched.
pub fn install_binary(
    src: &FileMap,
    src_path: &Vec<u8>,
    dst: &mut FileMap,
    dst_path: &Vec<u8>,
) -> (r: Result<(), String>)
    requires
        src.wf(),
        old(dst).wf(),
    ensures
        final (dst).wf(),
        old(dst)@.contains_key(dst_path@) ==> (r matches Ok(u) && final (dst)@ == old(dst)@),
        !old(dst)@.contains_key(dst_path@) && src@.contains_key(src_path@) ==> (r matches Ok(u)
            && final (dst)@ == old(dst)@.insert(dst_path@, (src@[src_path@].0, true))),
        !old(dst)@.contains_key(dst_path@) && !src@.contains_key(src_path@) ==> (r matches Err(e)
            && e@ == copy_error_spec(src_path@, dst_path@) && final (dst)@ == old(dst)@),
{
    if dst.contains_path(dst_path) {
        return Ok(());
    }
    match src.get(src_path) {
        None => Err(copy_error(src_path, dst_path)),
        Some(e) => {
            let content = copy_bytes(&e.content);
            dst.set(copy_bytes(dst_path), content, true);
            Ok(())
        },
    }
}

/// Copies a whole directory tree into the destination tree: every file of
/// the source listing ends up at its relative path in the destination,
/// overwriting what was there; destination files the source does not name
/// stay untouched.  `src` is `None` when the named source is no directory,
/// which is an error and changes nothing.
pub fn copy_dir_recursive(src: Option<&FileMap>, dst: &mut FileMap) -> (r: Result<(), String>)
    requires
        old(dst).wf(),
        src matches Some(s) ==> s.wf(),
    ensures
        final (dst).wf(),
        src is None ==> (r matches Err(e) && e@ == "Source is not a directory"@ && final (dst)@
            == old(dst)@),
        src matches Some(s) ==> (r matches Ok(u) && final (dst)@ == old(dst)@.union_prefer_right(
            s@,
        )),
{
    let s = match src {
        None => {
            return Err(String::from_str("Source is not a directory"));
        },
        Some(s) => s,
    };
    let mut i: usize = 0;
    proof {
        assert(old(dst)@.union_prefer_right(map_of(s.entries@.take(0))) =~= old(dst)@);
    }
    while i < s.entries.len()
        invariant
            i <= s.entries@.len(),
            dst.wf(),
            dst@ == old(dst)@.union_prefer_right(map_of(s.entries@.take(i as int))),
        decreases s.entries@.len() - i,
    {
        let e = &s.entries[i];
        let ghost pre = dst@;
        let ghost m_i = map_of(s.entries@.take(i as int));
        dst.set(copy_bytes(&e.path), copy_bytes(&e.content), e.executable);
        proof {
            let next = s.entries@.take(i + 1);
            assert(next.drop_last() =~= s.entries@.take(i as int));
            assert(next.last() == s.entries@[i as int]);
            assert(map_of(next) == m_i.insert(e.path@, (e.content@, e.executable)));
            assert(old(dst)@.union_prefer_right(m_i).insert(e.path@, (e.content@, e.executable))
                =~= old(dst)@.union_prefer_right(map_of(next)));
        }
        i += 1;
    }
    proof {
        assert(s.entries@.take(s.entries@.len() as int) =~= s.entries@);
    }
    Ok(())
}

/// Law: a directory copy reproduces every file of the source, content and
/// relative path alike, at the destination, and leaves every other
/// destination file as it was.
pub proof fn lemma_copy_dir_reproduces_source(
    dst0: Map<Seq<u8>, (Seq<u8>, bool)>,
    src: Map<Seq<u8>, (Seq<u8>, bool)>,
)
    ensures
        forall|p: Seq<u8>|
            src.contains_key(p) ==> dst0.union_prefer_right(src).contains_key(p)
                && dst0.union_prefer_right(src)[p] == src[p],
        forall|p: Seq<u8>|
            !src.contains_key(p) && dst0.contains_key(p) ==> dst0.union_prefer_right(
                src,
            ).contains_key(p) && dst0.union_prefer_right(src)[p] == dst0[p],
        forall|p: Seq<u8>|
            !src.contains_key(p) && !dst0.contains_key(p) ==> !dst0.union_prefer_right(
                src,
            ).contains_key(p),
{
}

} // verus!
